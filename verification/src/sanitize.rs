use vstd::prelude::*;

use vstd::string::StrSliceExecFns;

verus! {

/// The whitespace characters the trim step strips at either end: the
/// Unicode code points with the White_Space property.
pub open spec fn is_space_char(c: char) -> bool {
    c == ' ' || c == '\t' || c == '\n' || c == '\r' || c == '\u{000B}' || c == '\u{000C}' || c
        == '\u{0085}' || c == '\u{00A0}' || c == '\u{1680}' || c == '\u{2000}' || c == '\u{2001}'
        || c == '\u{2002}' || c == '\u{2003}' || c == '\u{2004}' || c == '\u{2005}' || c
        == '\u{2006}' || c == '\u{2007}' || c == '\u{2008}' || c == '\u{2009}' || c == '\u{200A}'
        || c == '\u{2028}' || c == '\u{2029}' || c == '\u{202F}' || c == '\u{205F}' || c
        == '\u{3000}'
}

/// The text from position `i` on with comments removed: a `/*` opens a
/// block comment closed by the next `*/`, and `--` opens a line comment
/// ended by the next newline (the newline itself is kept). An unterminated
/// comment runs to the end of the text.
pub open spec fn strip_comments_from(s: Seq<char>, i: int) -> Seq<char>
    decreases s.len() - i,
{
    if i < 0 || i >= s.len() {
        Seq::empty()
    } else if i + 1 < s.len() && s[i] == '/' && s[i + 1] == '*' {
        skip_block_comment(s, i + 2)
    } else if i + 1 < s.len() && s[i] == '-' && s[i + 1] == '-' {
        skip_line_comment(s, i + 2)
    } else {
        seq![s[i]] + strip_comments_from(s, i + 1)
    }
}

/// The text after the block comment that is open at position `i`.
pub open spec fn skip_block_comment(s: Seq<char>, i: int) -> Seq<char>
    decreases s.len() - i,
{
    if i < 0 || i >= s.len() {
        Seq::empty()
    } else if i + 1 < s.len() && s[i] == '*' && s[i + 1] == '/' {
        strip_comments_from(s, i + 2)
    } else {
        skip_block_comment(s, i + 1)
    }
}

/// The text after the line comment that is open at position `i`; the
/// terminating newline is kept.
pub open spec fn skip_line_comment(s: Seq<char>, i: int) -> Seq<char>
    decreases s.len() - i,
{
    if i < 0 || i >= s.len() {
        Seq::empty()
    } else if s[i] == '\n' {
        seq!['\n'] + strip_comments_from(s, i + 1)
    } else {
        skip_line_comment(s, i + 1)
    }
}

/// The text with every comment removed.
pub open spec fn comments_stripped(s: Seq<char>) -> Seq<char> {
    strip_comments_from(s, 0)
}

/// The text from position `i` on with every run of spaces collapsed to a
/// single space; `prev_space` records whether the character kept last was
/// a space.
pub open spec fn collapse_from(s: Seq<char>, i: int, prev_space: bool) -> Seq<char>
    decreases s.len() - i,
{
    if i < 0 || i >= s.len() {
        Seq::empty()
    } else if s[i] == ' ' && prev_space {
        collapse_from(s, i + 1, true)
    } else {
        seq![s[i]] + collapse_from(s, i + 1, s[i] == ' ')
    }
}

/// The text with every run of spaces collapsed to a single space.
pub open spec fn collapse_spaces(s: Seq<char>) -> Seq<char> {
    collapse_from(s, 0, false)
}

/// The text with every double quote replaced by a single quote.
pub open spec fn quotes_normalized(s: Seq<char>) -> Seq<char> {
    Seq::new(s.len(), |i: int| if s[i] == '"' { '\'' } else { s[i] })
}

/// The position of the first non-whitespace character at or after `i`.
pub open spec fn trim_start_idx(s: Seq<char>, i: int) -> int
    decreases s.len() - i,
{
    if i < 0 || i >= s.len() {
        s.len() as int
    } else if is_space_char(s[i]) {
        trim_start_idx(s, i + 1)
    } else {
        i
    }
}

/// The position after the last non-whitespace character before `j`.
pub open spec fn trim_end_idx(s: Seq<char>, j: int) -> int
    decreases j,
{
    if j <= 0 {
        0
    } else if is_space_char(s[j - 1]) {
        trim_end_idx(s, j - 1)
    } else {
        j
    }
}

/// The text with leading and trailing whitespace removed.
pub open spec fn trimmed(s: Seq<char>) -> Seq<char> {
    let start = trim_start_idx(s, 0);
    let end = trim_end_idx(s, s.len() as int);
    if start >= end {
        Seq::empty()
    } else {
        s.subrange(start, end)
    }
}

/// What sanitizing a raw statement text yields: comments stripped, runs of
/// spaces collapsed to one space, double quotes turned into single quotes,
/// and surrounding whitespace trimmed.
pub open spec fn sanitize_spec(s: Seq<char>) -> Seq<char> {
    trimmed(quotes_normalized(collapse_spaces(comments_stripped(s))))
}

/// Relies on `String::push`: appends the given character to the end of
/// the string.
#[verifier::external_body]
fn push_char(s: &mut String, c: char)
    ensures
        final(s)@ == old(s)@.push(c),
{
    s.push(c);
}

/// The characters of a string slice, in order.
fn chars_of(s: &str) -> (r: Vec<char>)
    ensures
        r@ == s@,
{
    let n = s.unicode_len();
    let mut out: Vec<char> = Vec::new();
    let mut i: usize = 0;
    while i < n
        invariant
            i <= n,
            n == s@.len(),
            out@ == s@.subrange(0, i as int),
        decreases n - i,
    {
        out.push(s.get_char(i));
        i = i + 1;
        proof {
            assert(out@ =~= s@.subrange(0, i as int));
        }
    }
    proof {
        assert(out@ =~= s@);
    }
    out
}

/// Where the comment scanner stands: in plain text, inside a block
/// comment, or inside a line comment.
enum CommentMode {
    Code,
    Block,
    Line,
}

/// The text the scanner will still produce from position `i` in the given
/// mode.
spec fn comment_rest(s: Seq<char>, i: int, m: CommentMode) -> Seq<char> {
    match m {
        CommentMode::Code => strip_comments_from(s, i),
        CommentMode::Block => skip_block_comment(s, i),
        CommentMode::Line => skip_line_comment(s, i),
    }
}

/// Removes comments from the text.
fn strip_comments(chars: &Vec<char>) -> (r: Vec<char>)
    ensures
        r@ == comments_stripped(chars@),
{
    let ghost sv = chars@;
    let mut out: Vec<char> = Vec::new();
    let mut mode = CommentMode::Code;
    let mut i: usize = 0;
    proof {
        assert(out@ + comment_rest(sv, 0, CommentMode::Code) =~= comments_stripped(sv));
    }
    while i < chars.len()
        invariant
            i <= chars@.len(),
            sv == chars@,
            out@ + comment_rest(sv, i as int, mode) == comments_stripped(sv),
        decreases chars@.len() - i,
    {
        let ghost prev = out@;
        let c = chars[i];
        match mode {
            CommentMode::Code => {
                if i + 1 < chars.len() && c == '/' && chars[i + 1] == '*' {
                    mode = CommentMode::Block;
                    i = i + 2;
                } else if i + 1 < chars.len() && c == '-' && chars[i + 1] == '-' {
                    mode = CommentMode::Line;
                    i = i + 2;
                } else {
                    out.push(c);
                    i = i + 1;
                    proof {
                        assert(out@ + strip_comments_from(sv, i as int) =~= prev + (seq![c]
                            + strip_comments_from(sv, i as int)));
                    }
                }
            },
            CommentMode::Block => {
                if i + 1 < chars.len() && c == '*' && chars[i + 1] == '/' {
                    mode = CommentMode::Code;
                    i = i + 2;
                } else {
                    i = i + 1;
                }
            },
            CommentMode::Line => {
                if c == '\n' {
                    out.push('\n');
                    mode = CommentMode::Code;
                    i = i + 1;
                    proof {
                        assert(out@ + strip_comments_from(sv, i as int) =~= prev + (seq!['\n']
                            + strip_comments_from(sv, i as int)));
                    }
                } else {
                    i = i + 1;
                }
            },
        }
    }
    proof {
        assert(comment_rest(sv, i as int, mode) =~= Seq::<char>::empty());
        assert(out@ + Seq::<char>::empty() =~= out@);
    }
    out
}

/// Sanitizes raw statement text before any other analysis: strips block
/// and line comments, collapses runs of spaces, normalizes double quotes
/// to single quotes, and trims surrounding whitespace.
pub fn sanitize_query(query: &str) -> (r: String)
    ensures
        r@ == sanitize_spec(query@),
{
    let chars = strip_comments(&chars_of(query));
    let ghost sv = comments_stripped(query@);

    // Collapse runs of spaces to a single space.
    let mut collapsed: Vec<char> = Vec::new();
    let mut prev_space = false;
    let mut i: usize = 0;
    proof {
        assert(collapsed@ + collapse_from(sv, 0, false) =~= collapse_spaces(sv));
    }
    while i < chars.len()
        invariant
            i <= chars@.len(),
            chars@ == sv,
            collapsed@ + collapse_from(sv, i as int, prev_space) == collapse_spaces(sv),
        decreases chars@.len() - i,
    {
        let c = chars[i];
        let ghost prev = collapsed@;
        if !(c == ' ' && prev_space) {
            collapsed.push(c);
            proof {
                assert(collapsed@ + collapse_from(sv, i + 1, c == ' ') =~= prev + (seq![c]
                    + collapse_from(sv, i + 1, c == ' ')));
            }
            prev_space = c == ' ';
        }
        i = i + 1;
    }
    proof {
        assert(collapsed@ + Seq::<char>::empty() =~= collapsed@);
        assert(collapsed@ == collapse_spaces(sv));
    }

    // Replace double quotes by single quotes.
    let ghost cv = collapsed@;
    let mut replaced: Vec<char> = Vec::new();
    let mut j: usize = 0;
    while j < collapsed.len()
        invariant
            j <= collapsed@.len(),
            cv == collapsed@,
            replaced@ == quotes_normalized(cv).subrange(0, j as int),
        decreases collapsed@.len() - j,
    {
        let c = collapsed[j];
        if c == '"' {
            replaced.push('\'');
        } else {
            replaced.push(c);
        }
        j = j + 1;
        proof {
            assert(replaced@ =~= quotes_normalized(cv).subrange(0, j as int));
        }
    }
    proof {
        assert(replaced@ =~= quotes_normalized(cv));
    }

    // Trim surrounding whitespace.
    let ghost rv = replaced@;
    let mut start: usize = 0;
    while start < replaced.len() && is_space_exec(replaced[start])
        invariant
            start <= replaced@.len(),
            rv == replaced@,
            trim_start_idx(rv, 0) == trim_start_idx(rv, start as int),
        decreases replaced@.len() - start,
    {
        start = start + 1;
    }
    proof {
        assert(trim_start_idx(rv, 0) == start as int);
    }
    let mut end: usize = replaced.len();
    while end > start && is_space_exec(replaced[end - 1])
        invariant
            start <= end <= replaced@.len(),
            rv == replaced@,
            trim_start_idx(rv, 0) == start as int,
            trim_end_idx(rv, rv.len() as int) == trim_end_idx(rv, end as int),
        decreases end,
    {
        end = end - 1;
    }
    proof {
        if end > start {
            assert(trim_end_idx(rv, rv.len() as int) == end as int);
        } else {
            assert(trim_end_idx(rv, end as int) <= end as int) by {
                lemma_trim_end_le(rv, end as int);
            }
        }
    }

    let mut out = String::new();
    let mut k: usize = start;
    while k < end
        invariant
            start <= k <= end <= replaced@.len(),
            rv == replaced@,
            out@ == rv.subrange(start as int, k as int),
        decreases end - k,
    {
        push_char(&mut out, replaced[k]);
        k = k + 1;
        proof {
            assert(out@ =~= rv.subrange(start as int, k as int));
        }
    }
    proof {
        if start < end {
            assert(out@ =~= trimmed(rv));
        } else {
            assert(out@ =~= Seq::<char>::empty());
            assert(trim_start_idx(rv, 0) >= trim_end_idx(rv, rv.len() as int));
            assert(out@ =~= trimmed(rv));
        }
    }
    out
}

/// The trim-end position never passes its starting bound.
proof fn lemma_trim_end_le(s: Seq<char>, j: int)
    requires
        j >= 0,
    ensures
        trim_end_idx(s, j) <= j,
    decreases j,
{
    if j > 0 && is_space_char(s[j - 1]) {
        lemma_trim_end_le(s, j - 1);
    }
}

/// Whether the character is trimmable whitespace.
fn is_space_exec(c: char) -> (r: bool)
    ensures
        r == is_space_char(c),
{
    c == ' ' || c == '\t' || c == '\n' || c == '\r' || c == '\u{000B}' || c == '\u{000C}' || c
        == '\u{0085}' || c == '\u{00A0}' || c == '\u{1680}' || c == '\u{2000}' || c == '\u{2001}'
        || c == '\u{2002}' || c == '\u{2003}' || c == '\u{2004}' || c == '\u{2005}' || c
        == '\u{2006}' || c == '\u{2007}' || c == '\u{2008}' || c == '\u{2009}' || c == '\u{200A}'
        || c == '\u{2028}' || c == '\u{2029}' || c == '\u{202F}' || c == '\u{205F}' || c
        == '\u{3000}'
}

} // verus!
