use vstd::prelude::*;

verus! {

/// A character the router uses inside a session token: lowercase ASCII
/// letter or decimal digit.
pub open spec fn is_token_char(c: char) -> bool {
    ||| 'a' as u32 <= c as u32 && c as u32 <= 'z' as u32
    ||| '0' as u32 <= c as u32 && c as u32 <= '9' as u32
}

/// The login page embeds the session token as `token: '<32 chars>'`.
/// This says that the whole pattern — the eight-character prefix
/// `token: '`, thirty-two token characters, and a closing quote —
/// stands in `s` starting at index `i`.
pub open spec fn pattern_matches_at(s: Seq<char>, i: int) -> bool {
    &&& 0 <= i
    &&& i + 41 <= s.len()
    &&& s[i] == 't'
    &&& s[i + 1] == 'o'
    &&& s[i + 2] == 'k'
    &&& s[i + 3] == 'e'
    &&& s[i + 4] == 'n'
    &&& s[i + 5] == ':'
    &&& s[i + 6] == ' '
    &&& s[i + 7] == '\''
    &&& forall|j: int| i + 8 <= j < i + 40 ==> is_token_char(#[trigger] s[j])
    &&& s[i + 40] == '\''
}

/// The body contains the token pattern somewhere.
pub open spec fn has_token(s: Seq<char>) -> bool {
    exists|i: int| pattern_matches_at(s, i)
}

/// The pattern stands at `i` and nowhere earlier.
pub open spec fn is_first_match(s: Seq<char>, i: int) -> bool {
    &&& pattern_matches_at(s, i)
    &&& forall|j: int| 0 <= j < i ==> !pattern_matches_at(s, j)
}

/// The token captured from `s`: the thirty-two characters between the
/// quotes of the first occurrence of the pattern. Meaningful only when
/// `has_token(s)` holds.
pub open spec fn token_of(s: Seq<char>) -> Seq<char> {
    let i = choose|i: int| is_first_match(s, i);
    s.subrange(i + 8, i + 40)
}

/// At most one index carries the first occurrence of the pattern.
pub proof fn lemma_first_match_unique(s: Seq<char>, i: int, j: int)
    requires
        is_first_match(s, i),
        is_first_match(s, j),
    ensures
        i == j,
{
    if i < j {
        assert(!pattern_matches_at(s, i));
    }
    if j < i {
        assert(!pattern_matches_at(s, j));
    }
}

proof fn lemma_exists_first_match(s: Seq<char>, i: int)
    requires
        pattern_matches_at(s, i),
    ensures
        exists|k: int| is_first_match(s, k),
    decreases i,
{
    if forall|j: int| 0 <= j < i ==> !pattern_matches_at(s, j) {
        assert(is_first_match(s, i));
    } else {
        let j = choose|j: int| 0 <= j < i && pattern_matches_at(s, j);
        lemma_exists_first_match(s, j);
    }
}

/// A captured token is thirty-two token characters.
pub proof fn lemma_token_of_shape(s: Seq<char>)
    requires
        has_token(s),
    ensures
        token_of(s).len() == 32,
        forall|k: int| 0 <= k < 32 ==> is_token_char(#[trigger] token_of(s)[k]),
{
    let w = choose|w: int| pattern_matches_at(s, w);
    lemma_exists_first_match(s, w);
    let i = choose|i: int| is_first_match(s, i);
    assert(pattern_matches_at(s, i));
    assert(token_of(s) == s.subrange(i + 8, i + 40));
    assert forall|k: int| 0 <= k < 32 implies is_token_char(#[trigger] token_of(s)[k]) by {
        assert(token_of(s)[k] == s[i + 8 + k]);
    }
}

fn check_token_char(c: char) -> (r: bool)
    ensures
        r == is_token_char(c),
{
    let u = c as u32;
    ('a' as u32 <= u && u <= 'z' as u32) || ('0' as u32 <= u && u <= '9' as u32)
}

/// The characters of `s`, in order, as a vector.
pub(crate) fn chars_of(s: &str) -> (r: Vec<char>)
    ensures
        r@ == s@,
{
    let n = s.unicode_len();
    let mut v: Vec<char> = Vec::new();
    let mut i: usize = 0;
    while i < n
        invariant
            i <= n,
            n == s@.len(),
            v@ == s@.subrange(0, i as int),
        decreases n - i,
    {
        v.push(s.get_char(i));
        i += 1;
    }
    proof {
        assert(s@.subrange(0, n as int) =~= s@);
    }
    v
}

fn matches_at_exec(v: &Vec<char>, i: usize) -> (r: bool)
    requires
        i <= usize::MAX - 41,
        i + 41 <= v@.len(),
    ensures
        r == pattern_matches_at(v@, i as int),
{
    if !(v[i] == 't' && v[i + 1] == 'o' && v[i + 2] == 'k' && v[i + 3] == 'e' && v[i + 4] == 'n'
        && v[i + 5] == ':' && v[i + 6] == ' ' && v[i + 7] == '\'' && v[i + 40] == '\'') {
        return false;
    }
    let mut j: usize = i + 8;
    while j < i + 40
        invariant
            i <= usize::MAX - 41,
            i + 8 <= j <= i + 40,
            i + 41 <= v@.len(),
            forall|k: int| i + 8 <= k < j ==> is_token_char(#[trigger] v@[k]),
        decreases i + 40 - j,
    {
        if !check_token_char(v[j]) {
            return false;
        }
        j += 1;
    }
    true
}

fn find_first_match(v: &Vec<char>) -> (r: Option<usize>)
    ensures
        match r {
            Some(i) => is_first_match(v@, i as int),
            None => !has_token(v@),
        },
{
    if v.len() < 41 {
        proof {
            assert forall|j: int| !pattern_matches_at(v@, j) by {
                if pattern_matches_at(v@, j) {
                    assert(j + 41 <= v@.len());
                }
            }
        }
        return None;
    }
    let end = v.len() - 41;
    let mut i: usize = 0;
    loop
        invariant
            i <= end + 1,
            end <= usize::MAX - 41,
            end + 41 == v@.len(),
            forall|j: int| 0 <= j < i ==> !pattern_matches_at(v@, j),
        decreases end + 1 - i,
    {
        if i > end {
            proof {
                assert forall|j: int| !pattern_matches_at(v@, j) by {
                    if pattern_matches_at(v@, j) {
                        assert(0 <= j && j + 41 <= v@.len());
                        assert(j < i as int);
                    }
                }
            }
            return None;
        }
        if matches_at_exec(v, i) {
            return Some(i);
        }
        i += 1;
    }
}

/// Scans a login response body for the embedded session token.
///
/// Returns the thirty-two characters captured by the first occurrence of
/// the pattern `token: '<32 lowercase alphanumerics>'`, or `None` when no
/// occurrence exists anywhere in the body.
pub fn extract_token(body: &str) -> (r: Option<String>)
    ensures
        has_token(body@) <==> r is Some,
        r matches Some(t) ==> t@ == token_of(body@),
{
    let v = chars_of(body);
    let n = v.len();
    match find_first_match(&v) {
        None => None,
        Some(i) => {
            proof {
                assert(i + 41 <= n);
            }
            let t = body.substring_char(i + 8, i + 40);
            proof {
                assert(pattern_matches_at(body@, i as int));
                let w = choose|w: int| is_first_match(body@, w);
                lemma_first_match_unique(body@, i as int, w);
            }
            Some(t.to_owned())
        },
    }
}

} // verus!
