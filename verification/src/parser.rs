use vstd::prelude::*;
use vstd::string::StrSliceExecFns;

verus! {

// ---------------------------------------------------------------------------
// Model of the role-list text.
//
// A role-menu message carries its role list after the last blank-line pair
// ("\n\n"): the list is the last segment of splitting the text on that
// separator, scanning left to right. Each line of that block that contains
// the reaction's symbol and a colon maps the symbol to the trimmed text after
// the first colon; the last such line wins.
// ---------------------------------------------------------------------------

/// A blank-line separator starts at position `i` of `t`.
pub open spec fn is_sep_at(t: Seq<char>, i: int) -> bool {
    0 <= i && i + 2 <= t.len() && t[i] == '\n' && t[i + 1] == '\n'
}

/// The text contains at least one blank-line separator.
pub open spec fn has_sep(t: Seq<char>) -> bool {
    exists|i: int| is_sep_at(t, i)
}

pub open spec fn starts_with_sep(t: Seq<char>) -> bool {
    t.len() >= 2 && t[0] == '\n' && t[1] == '\n'
}

/// The last segment of splitting `t` on the blank-line separator, scanning
/// left to right: each separator found ends a segment and the scan resumes
/// after it, so `t` itself is the last segment when no separator occurs.
pub open spec fn last_block(t: Seq<char>) -> Seq<char>
    decreases t.len(),
{
    if starts_with_sep(t) {
        last_block(t.skip(2))
    } else if t.len() >= 1 && has_sep(t) {
        last_block(t.skip(1))
    } else {
        t
    }
}

/// Skipping over a leftmost separator keeps the last segment: the scan
/// consumes everything up to and including the first separator first.
proof fn lemma_last_block_skip(u: Seq<char>, j: int)
    requires
        is_sep_at(u, j),
        forall|k: int| 0 <= k < j ==> !is_sep_at(u, k),
    ensures
        last_block(u) == last_block(u.skip(j + 2)),
    decreases j,
{
    if j == 0 {
        assert(starts_with_sep(u));
    } else {
        assert(!is_sep_at(u, 0));
        assert(!starts_with_sep(u));
        assert(has_sep(u));
        assert(is_sep_at(u.skip(1), j - 1));
        assert forall|k: int| 0 <= k < j - 1 implies !is_sep_at(u.skip(1), k) by {
            assert(!is_sep_at(u, k + 1));
        }
        lemma_last_block_skip(u.skip(1), j - 1);
        assert(u.skip(1).skip(j + 1) =~= u.skip(j + 2));
    }
}

/// The role-list block of a message text: the last blank-line-separated
/// segment, or nothing when the text holds no blank-line separator at all.
pub fn role_list_block<'a>(text: &'a str) -> (r: Option<&'a str>)
    ensures
        match r {
            Some(b) => has_sep(text@) && b@ == last_block(text@),
            None => !has_sep(text@),
        },
{
    let n = text.unicode_len();
    let mut i: usize = 0;
    let mut start: usize = 0;
    let mut seen: bool = false;
    proof {
        assert(text@.skip(0) =~= text@);
    }
    while n >= 2 && i < n - 1
        invariant
            n == text@.len(),
            start <= i,
            i <= n,
            seen ==> has_sep(text@),
            !seen ==> start == 0,
            last_block(text@) == last_block(text@.skip(start as int)),
            forall|k: int| start <= k < i ==> !is_sep_at(text@, k),
        decreases n - i,
    {
        if text.get_char(i) == '\n' && text.get_char(i + 1) == '\n' {
            proof {
                let u = text@.skip(start as int);
                let j = i - start;
                assert(is_sep_at(u, j)) by {
                    assert(u[j] == text@[i as int]);
                    assert(u[j + 1] == text@[i + 1]);
                }
                assert forall|k: int| 0 <= k < j implies !is_sep_at(u, k) by {
                    assert(!is_sep_at(text@, start + k));
                    assert(u[k] == text@[start + k]);
                    assert(k + 1 < j ==> u[k + 1] == text@[start + k + 1]);
                }
                lemma_last_block_skip(u, j);
                assert(u.skip(j + 2) =~= text@.skip(i + 2));
                assert(is_sep_at(text@, i as int));
            }
            seen = true;
            start = i + 2;
            i = i + 2;
        } else {
            proof {
                assert(!is_sep_at(text@, i as int));
            }
            i = i + 1;
        }
    }
    if !seen {
        proof {
            assert forall|k: int| !is_sep_at(text@, k) by {
                if 0 <= k && k + 2 <= n {
                    assert(k < i || k < n - 1);
                    assert(!is_sep_at(text@, k));
                }
            }
        }
        return None;
    }
    let block = text.substring_char(start, n);
    proof {
        let u = text@.skip(start as int);
        assert forall|k: int| !is_sep_at(u, k) by {
            if 0 <= k && k + 2 <= u.len() {
                assert(u[k] == text@[start + k]);
                assert(u[k + 1] == text@[start + k + 1]);
                assert(start + k < i);
                assert(!is_sep_at(text@, start + k));
            }
        }
        assert(!has_sep(u));
        assert(!starts_with_sep(u)) by {
            if starts_with_sep(u) {
                assert(is_sep_at(u, 0));
            }
        }
        assert(last_block(u) == u);
        assert(block@ =~= u);
    }
    Some(block)
}

// ---------------------------------------------------------------------------
// One line of the block.
// ---------------------------------------------------------------------------

/// The line contains the symbol as a contiguous substring.
pub open spec fn line_matches(line: Seq<char>, sym: Seq<char>) -> bool {
    exists|i: int| 0 <= i && i + sym.len() <= line.len() && #[trigger] line.subrange(i, i + sym.len()) == sym
}

pub open spec fn has_colon(line: Seq<char>) -> bool {
    exists|i: int| 0 <= i < line.len() && line[i] == ':'
}

/// Index of the first colon (meaningful only when `has_colon` holds).
pub open spec fn first_colon(line: Seq<char>) -> int
    decreases line.len(),
{
    if line.len() == 0 {
        0
    } else if line[0] == ':' {
        0
    } else {
        1 + first_colon(line.skip(1))
    }
}

proof fn lemma_first_colon(s: Seq<char>, c: int)
    requires
        0 <= c < s.len(),
        s[c] == ':',
        forall|k: int| 0 <= k < c ==> s[k] != ':',
    ensures
        first_colon(s) == c,
    decreases c,
{
    if c > 0 {
        assert forall|k: int| 0 <= k < c - 1 implies s.skip(1)[k] != ':' by {
            assert(s[k + 1] != ':');
        }
        assert(s.skip(1)[c - 1] == s[c]);
        lemma_first_colon(s.skip(1), c - 1);
    }
}

/// ASCII whitespace, as trimmed from around a role name.
pub open spec fn is_space(c: char) -> bool {
    c == ' ' || c == '\t' || c == '\n' || c == '\r' || c == '\u{c}'
}

pub open spec fn trim_start(s: Seq<char>) -> Seq<char>
    decreases s.len(),
{
    if s.len() > 0 && is_space(s[0]) {
        trim_start(s.skip(1))
    } else {
        s
    }
}

pub open spec fn trim_end(s: Seq<char>) -> Seq<char>
    decreases s.len(),
{
    if s.len() > 0 && is_space(s[s.len() - 1]) {
        trim_end(s.take(s.len() - 1))
    } else {
        s
    }
}

/// The text with ASCII whitespace removed from both ends.
pub open spec fn trim(s: Seq<char>) -> Seq<char> {
    trim_end(trim_start(s))
}

/// The role name a line contributes: the text after its first colon, trimmed.
pub open spec fn role_of_line(line: Seq<char>) -> Seq<char> {
    trim(line.skip(first_colon(line) + 1))
}

/// Whether a line contributes a mapping for the symbol: it must contain the
/// symbol and carry a colon.
pub open spec fn contributes(line: Seq<char>, sym: Seq<char>) -> bool {
    line_matches(line, sym) && has_colon(line)
}

proof fn lemma_trim_start(s: Seq<char>, a: int)
    requires
        0 <= a <= s.len(),
        forall|k: int| 0 <= k < a ==> is_space(s[k]),
        a == s.len() || !is_space(s[a]),
    ensures
        trim_start(s) == s.skip(a),
    decreases a,
{
    if a == 0 {
        assert(s.skip(0) =~= s);
    } else {
        assert(is_space(s[0]));
        assert forall|k: int| 0 <= k < a - 1 implies is_space(s.skip(1)[k]) by {
            assert(is_space(s[k + 1]));
        }
        assert(a - 1 == s.skip(1).len() || !is_space(s.skip(1)[a - 1]));
        lemma_trim_start(s.skip(1), a - 1);
        assert(s.skip(1).skip(a - 1) =~= s.skip(a));
    }
}

proof fn lemma_trim_end(s: Seq<char>, b: int)
    requires
        0 <= b <= s.len(),
        forall|k: int| b <= k < s.len() ==> is_space(s[k]),
        b == 0 || !is_space(s[b - 1]),
    ensures
        trim_end(s) == s.take(b),
    decreases s.len() - b,
{
    if b == s.len() {
        assert(s.take(b) =~= s);
    } else {
        assert(is_space(s[s.len() - 1]));
        let t = s.take(s.len() - 1);
        assert forall|k: int| b <= k < t.len() implies is_space(t[k]) by {
            assert(is_space(s[k]));
        }
        lemma_trim_end(t, b);
        assert(t.take(b) =~= s.take(b));
    }
}

/// Whether `hay` carries `needle` starting at position `i`.
fn match_at(hay: &str, i: usize, needle: &str) -> (b: bool)
    requires
        i + needle@.len() <= hay@.len(),
        hay@.len() <= usize::MAX,
    ensures
        b == (hay@.subrange(i as int, i + needle@.len()) == needle@),
{
    let nn = needle.unicode_len();
    let mut j: usize = 0;
    while j < nn
        invariant
            nn == needle@.len(),
            i + nn <= hay@.len(),
            hay@.len() <= usize::MAX,
            j <= nn,
            forall|k: int| 0 <= k < j ==> hay@[i + k] == needle@[k],
        decreases nn - j,
    {
        if hay.get_char(i + j) != needle.get_char(j) {
            proof {
                assert(hay@.subrange(i as int, i + nn)[j as int] != needle@[j as int]);
            }
            return false;
        }
        j = j + 1;
    }
    proof {
        assert(hay@.subrange(i as int, i + nn) =~= needle@);
    }
    true
}

/// Substring containment, decided over the views.
pub fn contains_str(hay: &str, needle: &str) -> (b: bool)
    ensures
        b == line_matches(hay@, needle@),
{
    let nh = hay.unicode_len();
    let nn = needle.unicode_len();
    if nn > nh {
        return false;
    }
    if nn == 0 {
        proof {
            assert(hay@.subrange(0, 0 + needle@.len() as int) =~= needle@);
            assert(line_matches(hay@, needle@));
        }
        return true;
    }
    let mut i: usize = 0;
    while i <= nh - nn
        invariant
            nh == hay@.len(),
            nn == needle@.len(),
            1 <= nn <= nh,
            i <= nh - nn + 1,
            forall|k: int| 0 <= k < i ==> #[trigger] hay@.subrange(k, k + nn) != needle@,
        decreases nh - nn - i + 1,
    {
        if match_at(hay, i, needle) {
            return true;
        }
        i = i + 1;
    }
    false
}

/// Index of the first colon of the line, if any.
pub fn find_colon(line: &str) -> (r: Option<usize>)
    ensures
        match r {
            Some(c) => has_colon(line@) && c < line@.len() && line@[c as int] == ':' && c
                == first_colon(line@),
            None => !has_colon(line@),
        },
{
    let n = line.unicode_len();
    let mut i: usize = 0;
    while i < n
        invariant
            n == line@.len(),
            i <= n,
            forall|k: int| 0 <= k < i ==> line@[k] != ':',
        decreases n - i,
    {
        if line.get_char(i) == ':' {
            proof {
                lemma_first_colon(line@, i as int);
            }
            return Some(i);
        }
        i = i + 1;
    }
    None
}

fn is_space_char(c: char) -> (b: bool)
    ensures
        b == is_space(c),
{
    c == ' ' || c == '\t' || c == '\n' || c == '\r' || c == '\u{c}'
}

/// The slice with ASCII whitespace removed from both ends.
pub fn trim_str<'a>(s: &'a str) -> (r: &'a str)
    ensures
        r@ == trim(s@),
{
    let n = s.unicode_len();
    let mut a: usize = 0;
    while a < n && is_space_char(s.get_char(a))
        invariant
            n == s@.len(),
            a <= n,
            forall|k: int| 0 <= k < a ==> is_space(s@[k]),
        decreases n - a,
    {
        a = a + 1;
    }
    proof {
        lemma_trim_start(s@, a as int);
    }
    let mut b: usize = n;
    while b > a && is_space_char(s.get_char(b - 1))
        invariant
            n == s@.len(),
            a <= b <= n,
            forall|k: int| b <= k < n ==> is_space(s@[k]),
        decreases b,
    {
        b = b - 1;
    }
    proof {
        let u = s@.skip(a as int);
        assert forall|k: int| b - a <= k < u.len() implies is_space(u[k]) by {
            assert(is_space(s@[a + k]));
        }
        assert(b - a == 0 || !is_space(u[b - a - 1]));
        lemma_trim_end(u, b - a);
        assert(u.take(b - a) =~= s@.subrange(a as int, b as int));
    }
    s.substring_char(a, b)
}

// ---------------------------------------------------------------------------
// The block as a sequence of lines, and last-write-wins resolution.
// ---------------------------------------------------------------------------

/// The segments of splitting `t` on `'\n'`, empty segments included: one
/// more segment than there are newlines.
pub open spec fn lines_of(t: Seq<char>) -> Seq<Seq<char>>
    decreases t.len(),
{
    if t.len() == 0 {
        seq![Seq::<char>::empty()]
    } else if t[0] == '\n' {
        seq![Seq::<char>::empty()].add(lines_of(t.skip(1)))
    } else {
        let rest = lines_of(t.skip(1));
        seq![seq![t[0]].add(rest[0])].add(rest.skip(1))
    }
}

proof fn lemma_lines_of_nonempty(t: Seq<char>)
    ensures
        lines_of(t).len() >= 1,
    decreases t.len(),
{
    if t.len() > 0 {
        lemma_lines_of_nonempty(t.skip(1))
    }
}

/// Splitting off the first line: if the first newline of `t` stands at `b`
/// (or `t` has none and `b` is its length), the lines of `t` are
/// `t[..b]` followed by the lines of `t[b+1..]`.
proof fn lemma_lines_of_split(t: Seq<char>, b: int)
    requires
        0 <= b <= t.len(),
        forall|k: int| 0 <= k < b ==> t[k] != '\n',
        b == t.len() || t[b] == '\n',
    ensures
        b == t.len() ==> lines_of(t) == seq![t],
        b < t.len() ==> lines_of(t) == seq![t.subrange(0, b)].add(lines_of(t.skip(b + 1))),
    decreases t.len(),
{
    if b == 0 {
        if t.len() == 0 {
            assert(lines_of(t) =~~= seq![t]);
        } else {
            assert(t[0] == '\n');
            assert(t.subrange(0, 0) =~= Seq::<char>::empty());
            assert(lines_of(t) =~= seq![t.subrange(0, 0)].add(lines_of(t.skip(1))));
        }
    } else {
        assert(t[0] != '\n');
        assert(t.len() > 0);
        let u = t.skip(1);
        assert forall|k: int| 0 <= k < b - 1 implies u[k] != '\n' by {
            assert(t[k + 1] != '\n');
        }
        lemma_lines_of_split(u, b - 1);
        let rest = lines_of(u);
        lemma_lines_of_nonempty(u);
        if b == t.len() {
            assert(rest == seq![u]);
            assert(seq![t[0]].add(rest[0]) =~= t);
            assert(rest.skip(1) =~= Seq::<Seq<char>>::empty());
            assert(lines_of(t) =~~= seq![t]);
        } else {
            assert(rest == seq![u.subrange(0, b - 1)].add(lines_of(u.skip(b))));
            assert(rest[0] == u.subrange(0, b - 1));
            assert(seq![t[0]].add(u.subrange(0, b - 1)) =~= t.subrange(0, b));
            assert(rest.skip(1) =~= lines_of(u.skip(b)));
            assert(u.skip(b) =~= t.skip(b + 1));
            assert(lines_of(t) =~= seq![t.subrange(0, b)].add(lines_of(t.skip(b + 1))));
        }
    }
}

/// Last-write-wins resolution: the role name of the last line that
/// contributes a mapping for the symbol, if any line does.
pub open spec fn winner(ls: Seq<Seq<char>>, sym: Seq<char>) -> Option<Seq<char>>
    decreases ls.len(),
{
    if ls.len() == 0 {
        None
    } else if contributes(ls.last(), sym) {
        Some(role_of_line(ls.last()))
    } else {
        winner(ls.drop_last(), sym)
    }
}

/// The matching lines without a colon, in document order: each is reported
/// as malformed and skipped, without aborting the parse.
pub open spec fn malformed_lines(ls: Seq<Seq<char>>, sym: Seq<char>) -> Seq<Seq<char>>
    decreases ls.len(),
{
    if ls.len() == 0 {
        Seq::empty()
    } else {
        malformed_lines(ls.drop_last(), sym).add(
            if line_matches(ls.last(), sym) && !has_colon(ls.last()) {
                seq![ls.last()]
            } else {
                Seq::empty()
            },
        )
    }
}

/// Resolves the symbol against the lines of a role-list block: the returned
/// name is the last-write winner over the block's lines, and the returned
/// list holds exactly the matching lines without a colon, in order.
pub fn resolve_in_block(block: &str, symbol: &str) -> (out: (Option<String>, Vec<String>))
    ensures
        match out.0 {
            Some(s) => winner(lines_of(block@), symbol@) == Some(s@),
            None => winner(lines_of(block@), symbol@) is None,
        },
        out.1@.map_values(|s: String| s@) == malformed_lines(lines_of(block@), symbol@),
{
    let m = block.unicode_len();
    let mut a: usize = 0;
    let mut best: Option<String> = None;
    let mut malformed: Vec<String> = Vec::new();
    let ghost mut done: Seq<Seq<char>> = Seq::empty();
    proof {
        assert(block@.skip(0) =~= block@);
        assert(Seq::<Seq<char>>::empty().add(lines_of(block@)) =~= lines_of(block@));
        assert(malformed@.map_values(|s: String| s@) =~= malformed_lines(done, symbol@));
    }
    loop
        invariant_except_break
            a <= m,
            lines_of(block@) == done.add(lines_of(block@.skip(a as int))),
        invariant
            m == block@.len(),
            match best {
                Some(s) => winner(done, symbol@) == Some(s@),
                None => winner(done, symbol@) is None,
            },
            malformed@.map_values(|s: String| s@) == malformed_lines(done, symbol@),
        ensures
            match best {
                Some(s) => winner(lines_of(block@), symbol@) == Some(s@),
                None => winner(lines_of(block@), symbol@) is None,
            },
            malformed@.map_values(|s: String| s@) == malformed_lines(lines_of(block@), symbol@),
        decreases m - a,
    {
        let mut b: usize = a;
        while b < m && block.get_char(b) != '\n'
            invariant
                m == block@.len(),
                a <= b <= m,
                forall|k: int| a <= k < b ==> block@[k] != '\n',
            decreases m - b,
        {
            b = b + 1;
        }
        let line = block.substring_char(a, b);
        proof {
            let u = block@.skip(a as int);
            assert forall|k: int| 0 <= k < b - a implies u[k] != '\n' by {
                assert(block@[a + k] != '\n');
            }
            assert(b < m ==> u[b - a] == '\n');
            lemma_lines_of_split(u, b - a);
            assert(u.subrange(0, b - a) =~= block@.subrange(a as int, b as int));
            assert(line@ == u.subrange(0, b - a));
        }
        let matched = contains_str(line, symbol);
        if matched {
            match find_colon(line) {
                Some(c) => {
                    let ln = line.unicode_len();
                    let after = line.substring_char(c + 1, ln);
                    let role = trim_str(after);
                    proof {
                        assert(after@ =~= line@.skip(c as int + 1));
                    }
                    best = Some(role.to_owned());
                },
                None => {
                    malformed.push(line.to_owned());
                },
            }
        }
        proof {
            let l = line@;
            let done2 = done.push(l);
            assert(done2.drop_last() =~= done);
            assert(done2.last() == l);
            assert(done2 =~= done.add(seq![l]));
            if matched && has_colon(l) {
                assert(contributes(l, symbol@));
                assert(winner(done2, symbol@) == Some(role_of_line(l)));
                assert(malformed_lines(done2, symbol@) =~= malformed_lines(done, symbol@));
            } else {
                assert(!contributes(l, symbol@));
                assert(winner(done2, symbol@) == winner(done, symbol@));
                if matched {
                    assert(malformed_lines(done2, symbol@) =~= malformed_lines(done, symbol@).push(l));
                } else {
                    assert(malformed_lines(done2, symbol@) =~= malformed_lines(done, symbol@));
                }
            }
            done = done2;
            assert(malformed@.map_values(|s: String| s@) =~= malformed_lines(done, symbol@));
        }
        if b == m {
            proof {
                let u = block@.skip(a as int);
                assert(line@ =~= u);
                assert(lines_of(u) == seq![u]);
                assert(done =~= lines_of(block@));
            }
            break;
        }
        proof {
            let u = block@.skip(a as int);
            assert(lines_of(u) == seq![line@].add(lines_of(u.skip(b - a + 1))));
            assert(u.skip(b - a + 1) =~= block@.skip(b as int + 1));
            assert(done.add(lines_of(block@.skip(b as int + 1))) =~= lines_of(block@));
        }
        a = b + 1;
    }
    (best, malformed)
}

// ---------------------------------------------------------------------------
// The parser.
// ---------------------------------------------------------------------------

/// Why a role list yields no role name for a symbol.
#[derive(Debug, Clone, PartialEq, Eq)]
pub enum ParseError {
    /// The text holds no blank-line separator, so no role list at all.
    NoRoleListFound,
    /// A line matched the symbol but carries no colon; reported and skipped.
    MalformedLine(String),
    /// No line mapped the symbol to a role name.
    NoRoleForEmoji(String),
}

/// What one parse of a message text yields for one symbol: the resolution,
/// and the matching-but-colonless lines that were skipped along the way.
#[derive(Debug)]
pub struct ParseOutcome {
    pub resolution: Result<String, ParseError>,
    pub malformed: Vec<String>,
}

/// Parses the role list out of `text`, restricted to `symbol`: the list is
/// the text after the last blank-line separator, and the symbol resolves to
/// the role name of the last of its lines that contains the symbol and a
/// colon, trimmed of the text up to the first colon and of surrounding
/// whitespace. Matching lines without a colon are skipped and returned for
/// reporting; they never abort the parse.
pub fn parse(text: &str, symbol: &str) -> (out: ParseOutcome)
    ensures
        !has_sep(text@) ==> out.resolution == Result::<String, ParseError>::Err(
            ParseError::NoRoleListFound,
        ) && out.malformed@ == Seq::<String>::empty(),
        has_sep(text@) ==> {
            &&& out.malformed@.map_values(|s: String| s@) == malformed_lines(
                lines_of(last_block(text@)),
                symbol@,
            )
            &&& match winner(lines_of(last_block(text@)), symbol@) {
                Some(r) => out.resolution is Ok && out.resolution->Ok_0@ == r,
                None => out.resolution matches Err(ParseError::NoRoleForEmoji(s)) && s@
                    == symbol@,
            }
        },
{
    match role_list_block(text) {
        None => ParseOutcome { resolution: Err(ParseError::NoRoleListFound), malformed: Vec::new() },
        Some(block) => {
            let (best, malformed) = resolve_in_block(block, symbol);
            match best {
                Some(role) => ParseOutcome { resolution: Ok(role), malformed },
                None => ParseOutcome {
                    resolution: Err(ParseError::NoRoleForEmoji(symbol.to_owned())),
                    malformed,
                },
            }
        },
    }
}

// ---------------------------------------------------------------------------
// Laws of the parser.
// ---------------------------------------------------------------------------

/// The parse reads only the text after the last blank-line separator: for a
/// text assembled as `prefix`, a separator, and a separator-free `rest`, the
/// role-list block is exactly `rest`, whatever stands in `prefix`. The
/// proviso that `prefix` not end in a newline rules out the one ambiguity:
/// there the trailing newline and the separator overlap, and the
/// left-to-right split keeps that newline inside the last segment.
pub proof fn lemma_parse_only_last_block(prefix: Seq<char>, rest: Seq<char>)
    requires
        !has_sep(rest),
        prefix.len() == 0 || prefix.last() != '\n',
    ensures
        has_sep(prefix + seq!['\n', '\n'] + rest),
        last_block(prefix + seq!['\n', '\n'] + rest) == rest,
    decreases prefix.len(),
{
    let t = prefix + seq!['\n', '\n'] + rest;
    assert(is_sep_at(t, prefix.len() as int));
    if prefix.len() == 0 {
        assert(starts_with_sep(t));
        assert(t.skip(2) =~= rest);
        assert(!starts_with_sep(rest)) by {
            if starts_with_sep(rest) {
                assert(is_sep_at(rest, 0));
            }
        }
        assert(last_block(rest) == rest);
    } else if starts_with_sep(t) {
        assert(prefix.len() >= 2) by {
            if prefix.len() == 1 {
                assert(prefix.last() == t[0]);
            }
        }
        lemma_parse_only_last_block(prefix.skip(2), rest);
        assert(t.skip(2) =~= prefix.skip(2) + seq!['\n', '\n'] + rest);
        assert(prefix.skip(2).len() == 0 || prefix.skip(2).last() == prefix.last());
    } else {
        lemma_parse_only_last_block(prefix.skip(1), rest);
        assert(t.skip(1) =~= prefix.skip(1) + seq!['\n', '\n'] + rest);
        assert(prefix.skip(1).len() == 0 || prefix.skip(1).last() == prefix.last());
    }
}

/// Last write wins: when a line contributes a mapping for the symbol and no
/// later line does, that line's role name is the resolution — two lines
/// mapping the same symbol resolve to the later one's name.
pub proof fn lemma_last_matching_line_wins(ls: Seq<Seq<char>>, j: int, sym: Seq<char>)
    requires
        0 <= j < ls.len(),
        contributes(ls[j], sym),
        forall|k: int| j < k < ls.len() ==> !contributes(#[trigger] ls[k], sym),
    ensures
        winner(ls, sym) == Some(role_of_line(ls[j])),
    decreases ls.len(),
{
    if j == ls.len() - 1 {
        assert(contributes(ls.last(), sym));
    } else {
        assert(!contributes(ls.last(), sym));
        assert forall|k: int| j < k < ls.drop_last().len() implies !contributes(
            #[trigger] ls.drop_last()[k],
            sym,
        ) by {
            assert(ls.drop_last()[k] == ls[k]);
        }
        assert(ls.drop_last()[j] == ls[j]);
        lemma_last_matching_line_wins(ls.drop_last(), j, sym);
    }
}

/// A line without a colon contributes nothing: removing it from the block's
/// lines leaves the resolution unchanged, and the parse does not abort on it.
pub proof fn lemma_colonless_line_ignored(ls: Seq<Seq<char>>, i: int, sym: Seq<char>)
    requires
        0 <= i < ls.len(),
        !has_colon(ls[i]),
    ensures
        winner(ls, sym) == winner(ls.remove(i), sym),
    decreases ls.len(),
{
    if i == ls.len() - 1 {
        assert(ls.remove(i) =~= ls.drop_last());
        assert(!contributes(ls.last(), sym));
    } else {
        assert(ls.remove(i).last() == ls.last());
        assert(ls.remove(i).len() == ls.len() - 1);
        if contributes(ls.last(), sym) {
        } else {
            assert(ls.remove(i).drop_last() =~= ls.drop_last().remove(i));
            assert(ls.drop_last()[i] == ls[i]);
            lemma_colonless_line_ignored(ls.drop_last(), i, sym);
        }
    }
}

} // verus!
