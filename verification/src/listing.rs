use crate::entry::{
    create_file_info, kind_color, kind_label, row_line_spec, ColorKind, FileInfoV, OutLine,
};
use crate::perms::perm_chars;
use crate::render::{
    fallback_line, fallback_text_spec, header_line, header_text_spec, section_line,
    section_line_spec,
};
use crate::tree::{height_node, walk_node_spec, walk_tree, FsTree, Visit};
use vstd::prelude::*;
use vstd::seq_lib::group_filter_ensures;
use vstd::seq_lib::lemma_seq_contains_after_push;

verus! {

/// Whether a final path segment counts as hidden: it starts with a dot.
pub open spec fn hidden_name(name: Seq<char>) -> bool {
    name.len() > 0 && name[0] == '.'
}

/// Whether a visited entry is shown: always when hidden-mode is on,
/// otherwise only when its name is not dot-prefixed.
pub open spec fn visit_visible(v: Visit, show_hidden: bool) -> bool {
    show_hidden || !hidden_name(v.name@)
}

/// The visits of a walk that the listing shows, in walk order.
pub open spec fn shown_visits(vs: Seq<Visit>, show_hidden: bool) -> Seq<Visit> {
    vs.filter(|v: Visit| visit_visible(v, show_hidden))
}

/// Whether a final path segment counts as hidden.
pub fn is_hidden_name(name: &String) -> (r: bool)
    ensures
        r == hidden_name(name@),
{
    let s = name.as_str();
    if s.unicode_len() == 0 {
        false
    } else {
        s.get_char(0) == '.'
    }
}

/// One supplied path: the text to announce it with, and the snapshot of the
/// tree under it — `None` where the path could not be read, which the
/// listing treats as matching nothing.
pub struct PathInput {
    pub label: String,
    pub root: Option<FsTree>,
}

/// The visits one supplied path contributes to the listing.
pub open spec fn path_shown_visits(p: PathInput, recursive: bool, show_hidden: bool) -> Seq<
    Visit,
> {
    match p.root {
        Option::Some(t) => shown_visits(walk_node_spec(t, 0, recursive), show_hidden),
        Option::None => Seq::empty(),
    }
}

/// Whether no supplied path contributes any visit.
pub open spec fn all_paths_empty(inputs: Seq<PathInput>, recursive: bool, show_hidden: bool) -> bool {
    forall|i: int|
        0 <= i < inputs.len() ==> (#[trigger] path_shown_visits(
            inputs[i],
            recursive,
            show_hidden,
        )).len() == 0
}

/// What a resolved row must carry for the visit it came from: its name, the
/// type label and colour of its kind, and its formatted permission bits.
/// The owner and group names are whatever the system databases answered, so
/// nothing relates them to the visit.
pub open spec fn row_matches_visit(info: FileInfoV, v: Visit) -> bool {
    &&& info.name == v.name@
    &&& info.file_type == kind_label(v.kind)
    &&& info.permissions == perm_chars(v.mode)
    &&& info.color == kind_color(v.kind)
}

/// Rowwise matching of resolved rows against the visits they render.
pub open spec fn rows_match_visits(rows: Seq<FileInfoV>, vs: Seq<Visit>) -> bool {
    &&& rows.len() == vs.len()
    &&& forall|i: int| 0 <= i < vs.len() ==> row_matches_visit(#[trigger] rows[i], vs[i])
}

/// One output line as mathematics: its text and its colour tag.
pub open spec fn lines_view(s: Seq<OutLine>) -> Seq<(Seq<char>, Option<ColorKind>)> {
    s.map_values(|l: OutLine| l@)
}

/// The coloured data lines for the resolved rows of one path's visits.
pub open spec fn row_lines_spec(rows: Seq<FileInfoV>, vs: Seq<Visit>) -> Seq<
    (Seq<char>, Option<ColorKind>),
> {
    vs.map(
        |i: int, v: Visit|
            (row_line_spec(rows[i], v.depth as int), Option::<ColorKind>::Some(rows[i].color)),
    )
}

/// The output lines of one supplied path: its section line, then one
/// coloured row per shown visit.
pub open spec fn path_lines_spec(label: Seq<char>, rows: Seq<FileInfoV>, vs: Seq<Visit>) -> Seq<
    (Seq<char>, Option<ColorKind>),
> {
    seq![(section_line_spec(label), Option::<ColorKind>::None)] + row_lines_spec(rows, vs)
}

/// The output lines of all supplied paths, in order.
pub open spec fn paths_lines_spec(
    inputs: Seq<PathInput>,
    rows: Seq<Seq<FileInfoV>>,
    recursive: bool,
    show_hidden: bool,
) -> Seq<(Seq<char>, Option<ColorKind>)>
    decreases inputs.len(),
{
    if inputs.len() == 0 {
        Seq::empty()
    } else {
        path_lines_spec(
            inputs[0].label@,
            rows[0],
            path_shown_visits(inputs[0], recursive, show_hidden),
        ) + paths_lines_spec(inputs.drop_first(), rows.drop_first(), recursive, show_hidden)
    }
}

/// Rowwise matching over all supplied paths.
pub open spec fn rows_match_inputs(
    rows: Seq<Seq<FileInfoV>>,
    inputs: Seq<PathInput>,
    recursive: bool,
    show_hidden: bool,
) -> bool {
    &&& rows.len() == inputs.len()
    &&& forall|i: int|
        0 <= i < inputs.len() ==> rows_match_visits(
            #[trigger] rows[i],
            path_shown_visits(inputs[i], recursive, show_hidden),
        )
}

/// Every output line of one invocation: the column header, each path's
/// section, and — exactly when nothing matched anywhere — the fallback line.
pub open spec fn listing_spec(
    inputs: Seq<PathInput>,
    rows: Seq<Seq<FileInfoV>>,
    recursive: bool,
    show_hidden: bool,
) -> Seq<(Seq<char>, Option<ColorKind>)> {
    seq![(header_text_spec(), Option::<ColorKind>::None)] + paths_lines_spec(
        inputs,
        rows,
        recursive,
        show_hidden,
    ) + if all_paths_empty(inputs, recursive, show_hidden) {
        seq![(fallback_text_spec(), Option::<ColorKind>::None)]
    } else {
        Seq::empty()
    }
}

/// Every supplied tree can be walked with usize depths.
pub open spec fn roots_walkable(inputs: Seq<PathInput>) -> bool {
    forall|i: int|
        0 <= i < inputs.len() ==> ((#[trigger] inputs[i].root) is Some ==> height_node(
            inputs[i].root.unwrap(),
        ) <= usize::MAX)
}

/// Filtering one more visit appends it exactly when it is visible.
proof fn lemma_shown_snoc(vs: Seq<Visit>, j: int, show_hidden: bool)
    requires
        0 <= j < vs.len(),
    ensures
        shown_visits(vs.subrange(0, j + 1), show_hidden) == if visit_visible(vs[j], show_hidden) {
            shown_visits(vs.subrange(0, j), show_hidden).push(vs[j])
        } else {
            shown_visits(vs.subrange(0, j), show_hidden)
        },
{
    broadcast use vstd::prelude::Seq::lemma_filter_push;

    assert(vs.subrange(0, j + 1) =~= vs.subrange(0, j).push(vs[j]));
}

/// Appending one path's lines to the assembled lines of the paths before it.
proof fn lemma_paths_lines_snoc(
    inputs: Seq<PathInput>,
    rows: Seq<Seq<FileInfoV>>,
    row: Seq<FileInfoV>,
    p: int,
    recursive: bool,
    show_hidden: bool,
)
    requires
        0 <= p < inputs.len(),
        rows.len() == p,
    ensures
        paths_lines_spec(inputs.subrange(0, p + 1), rows.push(row), recursive, show_hidden)
            == paths_lines_spec(inputs.subrange(0, p), rows, recursive, show_hidden)
            + path_lines_spec(
            inputs[p].label@,
            row,
            path_shown_visits(inputs[p], recursive, show_hidden),
        ),
    decreases p,
{
    if p == 0 {
        let s = inputs.subrange(0, 1);
        assert(s[0] == inputs[0]);
        assert(s.drop_first() =~= Seq::<PathInput>::empty());
        assert(rows.push(row).drop_first() =~= Seq::<Seq<FileInfoV>>::empty());
        assert(inputs.subrange(0, 0) =~= Seq::<PathInput>::empty());
        assert(rows.push(row)[0] == row);
        assert(paths_lines_spec(s.drop_first(), rows.push(row).drop_first(), recursive,
            show_hidden) =~= Seq::<(Seq<char>, Option<ColorKind>)>::empty());
        assert(paths_lines_spec(inputs.subrange(0, 0), rows, recursive, show_hidden) =~= Seq::<
            (Seq<char>, Option<ColorKind>),
        >::empty());
        assert(paths_lines_spec(inputs.subrange(0, 1), rows.push(row), recursive, show_hidden)
            =~= paths_lines_spec(inputs.subrange(0, 0), rows, recursive, show_hidden)
            + path_lines_spec(
            inputs[0].label@,
            row,
            path_shown_visits(inputs[0], recursive, show_hidden),
        ));
    } else {
        lemma_paths_lines_snoc(
            inputs.drop_first(),
            rows.drop_first(),
            row,
            p - 1,
            recursive,
            show_hidden,
        );
        let a = inputs.subrange(0, p + 1);
        let b = inputs.subrange(0, p);
        assert(a[0] == inputs[0]);
        assert(b[0] == inputs[0]);
        assert(a.drop_first() =~= inputs.drop_first().subrange(0, p));
        assert(b.drop_first() =~= inputs.drop_first().subrange(0, p - 1));
        assert(rows.push(row)[0] == rows[0]);
        assert(rows.push(row).drop_first() =~= rows.drop_first().push(row));
        assert(inputs.drop_first()[p - 1] == inputs[p]);
        assert(paths_lines_spec(a, rows.push(row), recursive, show_hidden) =~= paths_lines_spec(
            b,
            rows,
            recursive,
            show_hidden,
        ) + path_lines_spec(
            inputs[p].label@,
            row,
            path_shown_visits(inputs[p], recursive, show_hidden),
        ));
    }
}

/// With hidden-mode on, filtering keeps everything.
proof fn lemma_shown_all(vs: Seq<Visit>)
    ensures
        shown_visits(vs, true) == vs,
    decreases vs.len(),
{
    reveal(Seq::filter);
    if vs.len() == 0 {
        assert(shown_visits(vs, true) =~= vs);
    } else {
        lemma_shown_all(vs.drop_last());
        assert(visit_visible(vs.last(), true));
        assert(shown_visits(vs, true) =~= vs);
    }
}

/// Everything shown comes from the walk.
proof fn lemma_shown_subset(vs: Seq<Visit>, show_hidden: bool, v: Visit)
    requires
        shown_visits(vs, show_hidden).contains(v),
    ensures
        vs.contains(v),
    decreases vs.len(),
{
    reveal(Seq::filter);
    broadcast use lemma_seq_contains_after_push;

    if vs.len() == 0 {
        assert(false);
    } else {
        let dl = vs.drop_last();
        if visit_visible(vs.last(), show_hidden) && v == vs.last() {
            assert(vs[vs.len() - 1] == v);
        } else {
            assert(shown_visits(dl, show_hidden).contains(v));
            lemma_shown_subset(dl, show_hidden, v);
            let i = choose|i: int| 0 <= i < dl.len() && dl[i] == v;
            assert(vs[i] == v);
        }
    }
}

/// Dot-prefixed names are excluded unless hidden-mode is on, and enabling
/// hidden-mode shows a superset: with it every walked visit is shown
/// unchanged, and without it exactly those walked visits whose final path
/// segment is not dot-prefixed — each of which hidden-mode shows too.
pub proof fn lemma_hidden_mode_superset(vs: Seq<Visit>)
    ensures
        shown_visits(vs, true) == vs,
        forall|v: Visit|
            #[trigger] shown_visits(vs, false).contains(v) ==> vs.contains(v) && !hidden_name(
                v.name@,
            ),
        forall|v: Visit|
            vs.contains(v) && !hidden_name(v.name@) ==> #[trigger] shown_visits(
                vs,
                false,
            ).contains(v),
{
    broadcast use group_filter_ensures;

    lemma_shown_all(vs);
    assert forall|v: Visit| #[trigger] shown_visits(vs, false).contains(v) implies vs.contains(v)
        && !hidden_name(v.name@) by {
        lemma_shown_subset(vs, false, v);
        let shown = shown_visits(vs, false);
        let i = choose|i: int| 0 <= i < shown.len() && shown[i] == v;
        assert(visit_visible(shown[i], false));
    }
    assert forall|v: Visit| vs.contains(v) && !hidden_name(v.name@) implies #[trigger] shown_visits(
        vs,
        false,
    ).contains(v) by {
        let i = choose|i: int| 0 <= i < vs.len() && vs[i] == v;
        assert(visit_visible(vs[i], false));
        assert(shown_visits(vs, false).contains(vs[i]));
    }
}

/// No line of any path's section — neither a section line nor a data row —
/// is the fallback line.
proof fn lemma_paths_lines_no_fallback(
    inputs: Seq<PathInput>,
    rows: Seq<Seq<FileInfoV>>,
    recursive: bool,
    show_hidden: bool,
)
    ensures
        forall|k: int|
            0 <= k < paths_lines_spec(inputs, rows, recursive, show_hidden).len()
                ==> #[trigger] paths_lines_spec(inputs, rows, recursive, show_hidden)[k] != (
            fallback_text_spec(),
            Option::<ColorKind>::None,
            ),
    decreases inputs.len(),
{
    reveal_strlit("No files or directories found.");
    reveal_strlit("\nListing in: ");
    if inputs.len() > 0 {
        lemma_paths_lines_no_fallback(
            inputs.drop_first(),
            rows.drop_first(),
            recursive,
            show_hidden,
        );
        let lines = paths_lines_spec(inputs, rows, recursive, show_hidden);
        let head = path_lines_spec(
            inputs[0].label@,
            rows[0],
            path_shown_visits(inputs[0], recursive, show_hidden),
        );
        let tail = paths_lines_spec(inputs.drop_first(), rows.drop_first(), recursive, show_hidden);
        assert forall|k: int| 0 <= k < lines.len() implies #[trigger] lines[k] != (
        fallback_text_spec(),
        Option::<ColorKind>::None,
        ) by {
            if k < head.len() {
                assert(lines[k] == head[k]);
                if k == 0 {
                    assert(head[0].0 == section_line_spec(inputs[0].label@));
                    assert(section_line_spec(inputs[0].label@)[0] == '\n');
                    assert(fallback_text_spec()[0] == 'N');
                } else {
                    assert(head[k].1 is Some);
                }
            } else {
                assert(lines[k] == tail[k - head.len()]);
            }
        }
    }
}

/// When zero entries matched across all supplied paths the listing ends
/// with the fallback line, exactly once — no other line, in particular no
/// per-path line, equals it; when anything matched, the fallback line
/// appears nowhere at all.
pub proof fn lemma_fallback_exactly_once(
    inputs: Seq<PathInput>,
    rows: Seq<Seq<FileInfoV>>,
    recursive: bool,
    show_hidden: bool,
)
    ensures
        listing_spec(inputs, rows, recursive, show_hidden).len() > 0,
        all_paths_empty(inputs, recursive, show_hidden) ==> listing_spec(
            inputs,
            rows,
            recursive,
            show_hidden,
        ).last() == (fallback_text_spec(), Option::<ColorKind>::None),
        all_paths_empty(inputs, recursive, show_hidden) ==> forall|k: int|
            0 <= k < listing_spec(inputs, rows, recursive, show_hidden).len() - 1
                ==> #[trigger] listing_spec(inputs, rows, recursive, show_hidden)[k] != (
            fallback_text_spec(),
            Option::<ColorKind>::None,
            ),
        !all_paths_empty(inputs, recursive, show_hidden) ==> forall|k: int|
            0 <= k < listing_spec(inputs, rows, recursive, show_hidden).len()
                ==> #[trigger] listing_spec(inputs, rows, recursive, show_hidden)[k] != (
            fallback_text_spec(),
            Option::<ColorKind>::None,
            ),
{
    reveal_strlit("No files or directories found.");
    lemma_paths_lines_no_fallback(inputs, rows, recursive, show_hidden);
    crate::render::lemma_row_text_len("Name"@, "Type"@, "Owner"@, "Group"@, "Permissions"@);
    assert(header_text_spec().len() >= 124);
    assert(fallback_text_spec().len() == 30);
    let lines = listing_spec(inputs, rows, recursive, show_hidden);
    let mid = paths_lines_spec(inputs, rows, recursive, show_hidden);
    if all_paths_empty(inputs, recursive, show_hidden) {
        assert(lines[lines.len() - 1] == (fallback_text_spec(), Option::<ColorKind>::None));
        assert forall|k: int| 0 <= k < lines.len() - 1 implies #[trigger] lines[k] != (
        fallback_text_spec(),
        Option::<ColorKind>::None,
        ) by {
            if k == 0 {
                assert(lines[0].0 == header_text_spec());
            } else {
                assert(lines[k] == mid[k - 1]);
            }
        }
    } else {
        assert forall|k: int| 0 <= k < lines.len() implies #[trigger] lines[k] != (
        fallback_text_spec(),
        Option::<ColorKind>::None,
        ) by {
            if k == 0 {
                assert(lines[0].0 == header_text_spec());
            } else {
                assert(lines[k] == mid[k - 1]);
            }
        }
    }
}

/// Matching rows extend rowwise.
proof fn lemma_rows_match_snoc(
    rows: Seq<Seq<FileInfoV>>,
    row: Seq<FileInfoV>,
    inputs: Seq<PathInput>,
    p: int,
    recursive: bool,
    show_hidden: bool,
)
    requires
        0 <= p < inputs.len(),
        rows.len() == p,
        rows_match_inputs(rows, inputs.subrange(0, p), recursive, show_hidden),
        rows_match_visits(row, path_shown_visits(inputs[p], recursive, show_hidden)),
    ensures
        rows_match_inputs(rows.push(row), inputs.subrange(0, p + 1), recursive, show_hidden),
{
    let a = inputs.subrange(0, p + 1);
    let b = inputs.subrange(0, p);
    assert forall|i: int| 0 <= i < a.len() implies rows_match_visits(
        #[trigger] rows.push(row)[i],
        path_shown_visits(a[i], recursive, show_hidden),
    ) by {
        assert(a[i] == inputs[i]);
        if i < p {
            assert(b[i] == inputs[i]);
            assert(rows.push(row)[i] == rows[i]);
            assert(rows_match_visits(rows[i], path_shown_visits(b[i], recursive, show_hidden)));
        } else {
            assert(rows.push(row)[i] == row);
        }
    }
}

/// One more path leaves the listing empty exactly when it and all the paths
/// before it contributed nothing.
proof fn lemma_all_paths_empty_snoc(inputs: Seq<PathInput>, p: int, recursive: bool, show_hidden: bool)
    requires
        0 <= p < inputs.len(),
    ensures
        all_paths_empty(inputs.subrange(0, p + 1), recursive, show_hidden) <==> (all_paths_empty(
            inputs.subrange(0, p),
            recursive,
            show_hidden,
        ) && path_shown_visits(inputs[p], recursive, show_hidden).len() == 0),
{
    let a = inputs.subrange(0, p + 1);
    let b = inputs.subrange(0, p);
    if all_paths_empty(a, recursive, show_hidden) {
        assert forall|i: int| 0 <= i < b.len() implies (#[trigger] path_shown_visits(
            b[i],
            recursive,
            show_hidden,
        )).len() == 0 by {
            assert(b[i] == a[i]);
            assert(path_shown_visits(a[i], recursive, show_hidden).len() == 0);
        }
        assert(a[p] == inputs[p]);
        assert(path_shown_visits(a[p], recursive, show_hidden).len() == 0);
    }
    if all_paths_empty(b, recursive, show_hidden) && path_shown_visits(
        inputs[p],
        recursive,
        show_hidden,
    ).len() == 0 {
        assert forall|i: int| 0 <= i < a.len() implies (#[trigger] path_shown_visits(
            a[i],
            recursive,
            show_hidden,
        )).len() == 0 by {
            if i < p {
                assert(a[i] == b[i]);
                assert(path_shown_visits(b[i], recursive, show_hidden).len() == 0);
            } else {
                assert(a[i] == inputs[p]);
            }
        }
    }
}

/// Lists the supplied paths: the column header first, then, for each path,
/// its section line followed by one coloured row per shown entry of its
/// walk, and — exactly when no path contributed any entry — the fallback
/// line, once, at the very end. The owner and group columns come from the
/// system databases, so the contract fixes every line up to their content.
pub fn list_files_and_dirs(inputs: &Vec<PathInput>, recursive: bool, show_hidden: bool) -> (out:
    Vec<OutLine>)
    requires
        roots_walkable(inputs@),
    ensures
        exists|rows: Seq<Seq<FileInfoV>>|
            #[trigger] rows_match_inputs(rows, inputs@, recursive, show_hidden) && lines_view(out@)
                == listing_spec(inputs@, rows, recursive, show_hidden),
{
    let mut out: Vec<OutLine> = Vec::new();
    out.push(OutLine { text: header_line(), color: Option::None });
    let ghost header_only = lines_view(out@);
    proof {
        assert(header_only =~= seq![(header_text_spec(), Option::<ColorKind>::None)]);
    }
    let ghost mut rows: Seq<Seq<FileInfoV>> = Seq::empty();
    let mut found = false;
    let mut p: usize = 0;
    proof {
        assert(inputs@.subrange(0, 0) =~= Seq::<PathInput>::empty());
        assert(lines_view(out@) =~= header_only + paths_lines_spec(
            inputs@.subrange(0, 0),
            rows,
            recursive,
            show_hidden,
        ));
    }
    while p < inputs.len()
        invariant
            p <= inputs@.len(),
            roots_walkable(inputs@),
            rows.len() == p,
            rows_match_inputs(
                rows,
                inputs@.subrange(0, p as int),
                recursive,
                show_hidden,
            ),
            lines_view(out@) == header_only + paths_lines_spec(
                inputs@.subrange(0, p as int),
                rows,
                recursive,
                show_hidden,
            ),
            header_only == seq![(header_text_spec(), Option::<ColorKind>::None)],
            found == !all_paths_empty(inputs@.subrange(0, p as int), recursive, show_hidden),
        decreases inputs@.len() - p,
    {
        let inp = &inputs[p];
        out.push(OutLine { text: section_line(inp.label.as_str()), color: Option::None });
        let ghost base = lines_view(out@);
        let ghost mut prow: Seq<FileInfoV> = Seq::empty();
        let ghost found_before = found;
        proof {
            assert(base =~= header_only + paths_lines_spec(
                inputs@.subrange(0, p as int),
                rows,
                recursive,
                show_hidden,
            ) + seq![(section_line_spec(inp.label@), Option::<ColorKind>::None)]);
        }
        match &inp.root {
            Option::None => {
                proof {
                    assert(*inp == inputs@[p as int]);
                    assert(path_shown_visits(inputs@[p as int], recursive, show_hidden) =~= Seq::<
                        Visit,
                    >::empty());
                    assert(rows_match_visits(
                        prow,
                        path_shown_visits(inputs@[p as int], recursive, show_hidden),
                    ));
                    assert(found == (found_before || path_shown_visits(
                        inputs@[p as int],
                        recursive,
                        show_hidden,
                    ).len() > 0));
                    assert(row_lines_spec(
                        prow,
                        path_shown_visits(inputs@[p as int], recursive, show_hidden),
                    ) =~= Seq::<(Seq<char>, Option<ColorKind>)>::empty());
                    assert(lines_view(out@) =~= base + row_lines_spec(
                        prow,
                        path_shown_visits(inputs@[p as int], recursive, show_hidden),
                    ));
                }
            },
            Option::Some(t) => {
                let visits = walk_tree(t, recursive);
                let ghost vseq = visits@;
                let mut j: usize = 0;
                proof {
                    assert(vseq.subrange(0, 0) =~= Seq::<Visit>::empty());
                    reveal(Seq::filter);
                    assert(shown_visits(vseq.subrange(0, 0), show_hidden) =~= Seq::<Visit>::empty());
                    assert(lines_view(out@) =~= base + row_lines_spec(
                        prow,
                        shown_visits(vseq.subrange(0, 0), show_hidden),
                    ));
                }
                while j < visits.len()
                    invariant
                        j <= visits@.len(),
                        visits@ == vseq,
                        rows_match_visits(prow, shown_visits(vseq.subrange(0, j as int), show_hidden)),
                        lines_view(out@) == base + row_lines_spec(
                            prow,
                            shown_visits(vseq.subrange(0, j as int), show_hidden),
                        ),
                        found == (found_before || shown_visits(
                            vseq.subrange(0, j as int),
                            show_hidden,
                        ).len() > 0),
                    decreases visits@.len() - j,
                {
                    let v = &visits[j];
                    let visible = show_hidden || !is_hidden_name(&v.name);
                    proof {
                        lemma_shown_snoc(vseq, j as int, show_hidden);
                    }
                    let ghost shown_now = shown_visits(vseq.subrange(0, j as int), show_hidden);
                    let ghost shown_next = shown_visits(
                        vseq.subrange(0, j + 1 as int),
                        show_hidden,
                    );
                    if visible {
                        found = true;
                        let info = create_file_info(&v.name, v.kind, v.uid, v.gid, v.mode);
                        let line = info.render_line(v.depth);
                        let ghost old_lines = lines_view(out@);
                        out.push(line);
                        proof {
                            prow = prow.push(info@);
                            assert(shown_next == shown_now.push(vseq[j as int]));
                            assert forall|i: int| 0 <= i < shown_next.len() implies
                                row_matches_visit(#[trigger] prow[i], shown_next[i]) by {
                                if i < shown_next.len() - 1 {
                                    assert(row_matches_visit(prow[i], shown_now[i]));
                                }
                            }
                            assert(lines_view(out@) =~= old_lines.push(line@));
                            assert(row_lines_spec(prow, shown_next) =~= row_lines_spec(
                                prow.drop_last(),
                                shown_now,
                            ).push(
                                (
                                    row_line_spec(info@, vseq[j as int].depth as int),
                                    Option::<ColorKind>::Some(info@.color),
                                ),
                            ));
                            assert(prow.drop_last() =~= prow.subrange(0, prow.len() - 1));
                            assert(lines_view(out@) =~= base + row_lines_spec(prow, shown_next));
                        }
                    } else {
                        proof {
                            assert(shown_next == shown_now);
                        }
                    }
                    j = j + 1;
                }
                proof {
                    assert(vseq.subrange(0, vseq.len() as int) =~= vseq);
                    assert(*inp == inputs@[p as int]);
                    assert(path_shown_visits(inputs@[p as int], recursive, show_hidden)
                        == shown_visits(vseq, show_hidden));
                    assert(rows_match_visits(
                        prow,
                        path_shown_visits(inputs@[p as int], recursive, show_hidden),
                    ));
                    assert(found == (found_before || path_shown_visits(
                        inputs@[p as int],
                        recursive,
                        show_hidden,
                    ).len() > 0));
                    assert(lines_view(out@) == base + row_lines_spec(
                        prow,
                        path_shown_visits(inputs@[p as int], recursive, show_hidden),
                    ));
                }
            },
        }
        proof {
            assert(rows_match_visits(
                prow,
                path_shown_visits(inputs@[p as int], recursive, show_hidden),
            ));
            assert(found == (found_before || path_shown_visits(
                inputs@[p as int],
                recursive,
                show_hidden,
            ).len() > 0));
            lemma_paths_lines_snoc(inputs@, rows, prow, p as int, recursive, show_hidden);
            lemma_rows_match_snoc(rows, prow, inputs@, p as int, recursive, show_hidden);
            lemma_all_paths_empty_snoc(inputs@, p as int, recursive, show_hidden);
            rows = rows.push(prow);
            assert(lines_view(out@) =~= header_only + paths_lines_spec(
                inputs@.subrange(0, p + 1 as int),
                rows,
                recursive,
                show_hidden,
            ));
        }
        p = p + 1;
    }
    proof {
        assert(inputs@.subrange(0, inputs@.len() as int) =~= inputs@);
    }
    if !found {
        out.push(OutLine { text: fallback_line(), color: Option::None });
        proof {
            assert(lines_view(out@) =~= listing_spec(inputs@, rows, recursive, show_hidden));
        }
    } else {
        proof {
            assert(lines_view(out@) + Seq::<(Seq<char>, Option<ColorKind>)>::empty()
                =~= lines_view(out@));
            assert(lines_view(out@) =~= listing_spec(inputs@, rows, recursive, show_hidden));
        }
    }
    proof {
        assert(rows_match_inputs(rows, inputs@, recursive, show_hidden));
    }
    out
}

} // verus!
