use vstd::prelude::*;

verus! {

/// A run of `n` space characters.
pub open spec fn spaces(n: int) -> Seq<char>
    decreases n,
{
    if n <= 0 {
        Seq::empty()
    } else {
        spaces(n - 1).push(' ')
    }
}

pub proof fn lemma_spaces_succ(n: int)
    requires
        n >= 0,
    ensures
        spaces(n + 1) == spaces(n).push(' '),
{
}

pub proof fn lemma_spaces_len(n: int)
    ensures
        spaces(n).len() == if n <= 0 { 0int } else { n },
    decreases n,
{
    if n > 0 {
        lemma_spaces_len(n - 1);
    }
}

/// `s` left-justified in a field of `w` characters; text longer than the
/// field overflows rather than being truncated.
pub open spec fn pad_spec(s: Seq<char>, w: int) -> Seq<char> {
    if s.len() >= w {
        s
    } else {
        s + spaces(w - s.len())
    }
}

/// One output row: five left-justified fields of widths 60, 10, 20, 20
/// and 10, separated by single spaces.
pub open spec fn row_text_spec(
    name: Seq<char>,
    ty: Seq<char>,
    owner: Seq<char>,
    group: Seq<char>,
    perms: Seq<char>,
) -> Seq<char> {
    pad_spec(name, 60) + seq![' '] + pad_spec(ty, 10) + seq![' '] + pad_spec(owner, 20)
        + seq![' '] + pad_spec(group, 20) + seq![' '] + pad_spec(perms, 10)
}

/// Two spaces for every level of depth.
pub open spec fn indent_spec(depth: int) -> Seq<char>
    decreases depth,
{
    if depth <= 0 {
        Seq::empty()
    } else {
        indent_spec(depth - 1) + seq![' ', ' ']
    }
}

/// The name column of an entry at a depth: the bare name at the root,
/// otherwise the name behind a depth-proportional indent and a `> ` marker.
pub open spec fn name_display_spec(name: Seq<char>, depth: int) -> Seq<char> {
    if depth > 0 {
        indent_spec(depth) + seq!['>', ' '] + name
    } else {
        name
    }
}

/// The column-header row above all listings.
pub open spec fn header_text_spec() -> Seq<char> {
    row_text_spec("Name"@, "Type"@, "Owner"@, "Group"@, "Permissions"@)
}

/// The section line announcing one supplied path, preceded by a blank line.
pub open spec fn section_line_spec(label: Seq<char>) -> Seq<char> {
    "\nListing in: "@ + label
}

/// The fallback line when no entry matched under any supplied path.
pub open spec fn fallback_text_spec() -> Seq<char> {
    "No files or directories found."@
}

/// A padded field is at least as wide as the field and never loses text.
pub proof fn lemma_pad_spec_len(s: Seq<char>, w: int)
    requires
        w >= 0,
    ensures
        pad_spec(s, w).len() >= w,
        pad_spec(s, w).len() >= s.len(),
{
    lemma_spaces_len(w - s.len());
}

/// A row is at least as long as its five field widths and four separators.
pub proof fn lemma_row_text_len(
    name: Seq<char>,
    ty: Seq<char>,
    owner: Seq<char>,
    group: Seq<char>,
    perms: Seq<char>,
)
    ensures
        row_text_spec(name, ty, owner, group, perms).len() >= 124,
{
    lemma_pad_spec_len(name, 60);
    lemma_pad_spec_len(ty, 10);
    lemma_pad_spec_len(owner, 20);
    lemma_pad_spec_len(group, 20);
    lemma_pad_spec_len(perms, 10);
}

/// `s` left-justified in a field of `width` characters.
pub fn pad_field(s: &str, width: usize) -> (r: String)
    ensures
        r@ == pad_spec(s@, width as int),
{
    proof {
        reveal_strlit(" ");
    }
    let n: usize = s.unicode_len();
    let mut r = String::from_str(s);
    let mut i: usize = n;
    proof {
        assert(r@ =~= s@ + spaces(i - n));
    }
    while i < width
        invariant
            n <= i,
            n < width ==> i <= width,
            n >= width ==> i == n,
            r@ == s@ + spaces(i - n),
        decreases width - i,
    {
        r.append(" ");
        proof {
            reveal_strlit(" ");
            lemma_spaces_succ(i - n);
            assert(spaces(i - n).push(' ') =~= spaces(i - n) + " "@);
        }
        i = i + 1;
    }
    proof {
        if n >= width {
            assert(r@ =~= s@);
        }
    }
    r
}

/// The name column for an entry: indentation and the `> ` marker as its
/// depth asks.
pub fn name_display(name: &str, depth: usize) -> (r: String)
    ensures
        r@ == name_display_spec(name@, depth as int),
{
    if depth == 0 {
        String::from_str(name)
    } else {
        proof {
            reveal_strlit("  ");
            reveal_strlit("> ");
        }
        let mut r = String::new();
        let mut i: usize = 0;
        proof {
            assert(r@ =~= indent_spec(0));
        }
        while i < depth
            invariant
                i <= depth,
                r@ == indent_spec(i as int),
            decreases depth - i,
        {
            r.append("  ");
            proof {
                reveal_strlit("  ");
                assert(indent_spec(i + 1) == indent_spec(i as int) + seq![' ', ' ']);
                assert("  "@ =~= seq![' ', ' ']);
            }
            i = i + 1;
        }
        r.append("> ");
        r.append(name);
        proof {
            assert(r@ =~= name_display_spec(name@, depth as int));
        }
        r
    }
}

/// One row of five left-justified, space-separated columns.
pub fn render_columns(name: &str, ty: &str, owner: &str, group: &str, perms: &str) -> (r: String)
    ensures
        r@ == row_text_spec(name@, ty@, owner@, group@, perms@),
{
    proof {
        reveal_strlit(" ");
    }
    let mut r = String::new();
    let p0 = pad_field(name, 60);
    r.append(p0.as_str());
    r.append(" ");
    let p1 = pad_field(ty, 10);
    r.append(p1.as_str());
    r.append(" ");
    let p2 = pad_field(owner, 20);
    r.append(p2.as_str());
    r.append(" ");
    let p3 = pad_field(group, 20);
    r.append(p3.as_str());
    r.append(" ");
    let p4 = pad_field(perms, 10);
    r.append(p4.as_str());
    proof {
        assert(" "@ =~= seq![' ']);
        assert(r@ =~= row_text_spec(name@, ty@, owner@, group@, perms@));
    }
    r
}

/// The column-header row.
pub fn header_line() -> (r: String)
    ensures
        r@ == header_text_spec(),
{
    render_columns("Name", "Type", "Owner", "Group", "Permissions")
}

/// The section line for one supplied path.
pub fn section_line(label: &str) -> (r: String)
    ensures
        r@ == section_line_spec(label@),
{
    let mut r = String::from_str("\nListing in: ");
    r.append(label);
    r
}

/// The fallback line for an invocation that matched nothing.
pub fn fallback_line() -> (r: String)
    ensures
        r@ == fallback_text_spec(),
{
    String::from_str("No files or directories found.")
}

} // verus!
