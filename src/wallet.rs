use vstd::prelude::*;

use crate::error::ApiError;

verus! {

broadcast use vstd::string::axiom_spec_iter;

/// The length of a canonical wallet: `0x` and forty hex digits.
pub const WALLET_LEN: usize = 42;

/// Unicode's `White_Space` characters, the ones trimmed around an input.
pub open spec fn is_space(c: char) -> bool {
    let u = c as u32;
    (0x9 <= u <= 0xd) || u == 0x20 || u == 0x85 || u == 0xa0 || u == 0x1680 || (0x2000 <= u
        <= 0x200a) || u == 0x2028 || u == 0x2029 || u == 0x202f || u == 0x205f || u == 0x3000
}

/// The input without its leading white space.
pub open spec fn trim_start(s: Seq<char>) -> Seq<char>
    decreases s.len(),
{
    if s.len() > 0 && is_space(s[0]) {
        trim_start(s.drop_first())
    } else {
        s
    }
}

/// The input without its trailing white space.
pub open spec fn trim_end(s: Seq<char>) -> Seq<char>
    decreases s.len(),
{
    if s.len() > 0 && is_space(s.last()) {
        trim_end(s.drop_last())
    } else {
        s
    }
}

pub open spec fn trimmed(s: Seq<char>) -> Seq<char> {
    trim_end(trim_start(s))
}

pub open spec fn is_upper(c: char) -> bool {
    'A' <= c <= 'Z'
}

/// ASCII case folding: an upper-case Latin letter becomes lower case, any
/// other character stays.
pub open spec fn lower_char(c: char) -> char {
    if is_upper(c) {
        ((c as u32) + 32) as char
    } else {
        c
    }
}

pub open spec fn is_lower_hex(c: char) -> bool {
    ('0' <= c <= '9') || ('a' <= c <= 'f')
}

/// The canonical form of an input: trimmed, then folded to lower case.
pub open spec fn canonical_wallet(s: Seq<char>) -> Seq<char> {
    trimmed(s).map_values(|c: char| lower_char(c))
}

/// A canonical wallet: `0x` followed by forty lower-case hex digits.
pub open spec fn is_canonical(w: Seq<char>) -> bool {
    &&& w.len() == WALLET_LEN
    &&& w[0] == '0'
    &&& w[1] == 'x'
    &&& forall|i: int| 2 <= i < w.len() ==> is_lower_hex(#[trigger] w[i])
}

/// Whether an input denotes a wallet.
pub open spec fn is_valid_wallet(s: Seq<char>) -> bool {
    is_canonical(canonical_wallet(s))
}

fn is_space_char(c: char) -> (r: bool)
    ensures
        r == is_space(c),
{
    let u = c as u32;
    (0x9 <= u && u <= 0xd) || u == 0x20 || u == 0x85 || u == 0xa0 || u == 0x1680 || (0x2000 <= u
        && u <= 0x200a) || u == 0x2028 || u == 0x2029 || u == 0x202f || u == 0x205f || u == 0x3000
}

fn fold_char(c: char) -> (r: char)
    ensures
        r == lower_char(c),
{
    if 'A' <= c && c <= 'Z' {
        ((c as u8) + 32) as char
    } else {
        c
    }
}

fn chars_of(s: &str) -> (v: Vec<char>)
    ensures
        v@ == s@,
{
    let mut v: Vec<char> = Vec::new();
    for c in it: s.chars()
        invariant
            v@ == it.seq().subrange(0, it.index() as int),
    {
        v.push(c);
    }
    v
}

proof fn lemma_trim_start_step(s: Seq<char>, lo: int)
    requires
        0 <= lo < s.len(),
        is_space(s[lo]),
    ensures
        trim_start(s.subrange(lo, s.len() as int)) == trim_start(s.subrange(lo + 1, s.len() as int)),
{
    assert(s.subrange(lo, s.len() as int).drop_first() =~= s.subrange(lo + 1, s.len() as int));
}

proof fn lemma_trim_end_step(s: Seq<char>, hi: int)
    requires
        0 < hi <= s.len(),
        is_space(s[hi - 1]),
    ensures
        trim_end(s.subrange(0, hi)) == trim_end(s.subrange(0, hi - 1)),
{
    assert(s.subrange(0, hi).drop_last() =~= s.subrange(0, hi - 1));
}

/// Relies on `String`'s `FromIterator<&char>`: collecting characters appends them in order.
#[verifier::external_body]
fn string_from_chars(v: &Vec<char>) -> (r: String)
    ensures
        r@ == v@,
{
    v.iter().collect()
}

/// Trims white space around the input, folds it to lower case, and accepts it
/// only when the result is `0x` followed by forty hex digits.
pub fn normalize_and_validate(input: &str) -> (r: Result<String, ApiError>)
    ensures
        match r {
            Ok(w) => is_valid_wallet(input@) && w@ == canonical_wallet(input@),
            Err(e) => !is_valid_wallet(input@) && e == ApiError::InvalidWallet,
        },
{
    let v = chars_of(input);
    let n = v.len();
    let mut lo: usize = 0;
    assert(v@.subrange(0, n as int) =~= v@);
    while lo < n && is_space_char(v[lo])
        invariant
            0 <= lo <= n == v@.len(),
            trim_start(v@) == trim_start(v@.subrange(lo as int, n as int)),
        decreases n - lo,
    {
        proof {
            lemma_trim_start_step(v@, lo as int);
        }
        lo = lo + 1;
    }
    let ghost front = v@.subrange(lo as int, n as int);
    assert(trim_start(v@) == front);
    let mut hi: usize = n;
    while hi > lo && is_space_char(v[hi - 1])
        invariant
            0 <= lo <= hi <= n == v@.len(),
            front == v@.subrange(lo as int, n as int),
            trim_end(front) == trim_end(v@.subrange(lo as int, hi as int)),
        decreases hi,
    {
        proof {
            lemma_trim_end_step(v@.subrange(lo as int, n as int), (hi - lo) as int);
            assert(v@.subrange(lo as int, n as int).subrange(0, (hi - lo) as int) =~= v@.subrange(
                lo as int,
                hi as int,
            ));
            assert(v@.subrange(lo as int, n as int).subrange(0, (hi - lo - 1) as int)
                =~= v@.subrange(lo as int, hi - 1));
        }
        hi = hi - 1;
    }
    let ghost core = v@.subrange(lo as int, hi as int);
    assert(trimmed(input@) == core);
    if hi - lo != WALLET_LEN {
        return Err(ApiError::InvalidWallet);
    }
    let mut out: Vec<char> = Vec::new();
    let mut i: usize = lo;
    while i < hi
        invariant
            lo <= i <= hi <= n == v@.len(),
            core == v@.subrange(lo as int, hi as int),
            out@ == core.subrange(0, i - lo).map_values(|c: char| lower_char(c)),
        decreases hi - i,
    {
        let c = fold_char(v[i]);
        out.push(c);
        proof {
            assert(core.subrange(0, i + 1 - lo).map_values(|c: char| lower_char(c)) =~= core.subrange(
                0,
                i - lo,
            ).map_values(|c: char| lower_char(c)).push(lower_char(v@[i as int])));
        }
        i = i + 1;
    }
    assert(core.subrange(0, core.len() as int) =~= core);
    assert(out@ == canonical_wallet(input@));
    if out[0] != '0' || out[1] != 'x' {
        return Err(ApiError::InvalidWallet);
    }
    let mut j: usize = 2;
    while j < WALLET_LEN
        invariant
            2 <= j <= WALLET_LEN == out@.len(),
            out@ == canonical_wallet(input@),
            forall|k: int| 2 <= k < j ==> is_lower_hex(#[trigger] out@[k]),
        decreases WALLET_LEN - j,
    {
        let c = out[j];
        if !(('0' <= c && c <= '9') || ('a' <= c && c <= 'f')) {
            assert(!is_lower_hex(out@[j as int]));
            return Err(ApiError::InvalidWallet);
        }
        j = j + 1;
    }
    Ok(string_from_chars(&out))
}

pub open spec fn all_space(s: Seq<char>) -> bool {
    forall|i: int| 0 <= i < s.len() ==> is_space(#[trigger] s[i])
}

/// Two inputs of one length whose characters agree up to ASCII case.
pub open spec fn same_up_to_case(s: Seq<char>, t: Seq<char>) -> bool {
    &&& s.len() == t.len()
    &&& forall|i: int| 0 <= i < s.len() ==> lower_char(#[trigger] s[i]) == lower_char(t[i])
}

proof fn lemma_space_ignores_case(c: char, d: char)
    requires
        lower_char(c) == lower_char(d),
    ensures
        is_space(c) == is_space(d),
{
}

proof fn lemma_trim_start_padding(pre: Seq<char>, x: Seq<char>)
    requires
        all_space(pre),
    ensures
        trim_start(pre + x) == trim_start(x),
    decreases pre.len(),
{
    if pre.len() > 0 {
        assert((pre + x)[0] == pre[0]);
        assert((pre + x).drop_first() =~= pre.drop_first() + x);
        lemma_trim_start_padding(pre.drop_first(), x);
    } else {
        assert(pre + x =~= x);
    }
}

proof fn lemma_trim_end_padding(x: Seq<char>, post: Seq<char>)
    requires
        all_space(post),
    ensures
        trim_end(x + post) == trim_end(x),
    decreases post.len(),
{
    if post.len() > 0 {
        assert((x + post).last() == post.last());
        assert((x + post).drop_last() =~= x + post.drop_last());
        lemma_trim_end_padding(x, post.drop_last());
    } else {
        assert(x + post =~= x);
    }
}

proof fn lemma_trim_start_append(x: Seq<char>, post: Seq<char>)
    requires
        trim_start(x).len() > 0,
    ensures
        trim_start(x + post) == trim_start(x) + post,
    decreases x.len(),
{
    if x.len() > 0 && is_space(x[0]) {
        assert((x + post)[0] == x[0]);
        assert((x + post).drop_first() =~= x.drop_first() + post);
        lemma_trim_start_append(x.drop_first(), post);
    } else if x.len() > 0 {
        assert((x + post)[0] == x[0]);
    }
}

proof fn lemma_trim_start_case(s: Seq<char>, t: Seq<char>)
    requires
        same_up_to_case(s, t),
    ensures
        same_up_to_case(trim_start(s), trim_start(t)),
    decreases s.len(),
{
    if s.len() > 0 {
        lemma_space_ignores_case(s[0], t[0]);
        if is_space(s[0]) {
            assert forall|i: int| 0 <= i < s.len() - 1 implies lower_char(
                #[trigger] s.drop_first()[i],
            ) == lower_char(t.drop_first()[i]) by {
                assert(s.drop_first()[i] == s[i + 1]);
            }
            lemma_trim_start_case(s.drop_first(), t.drop_first());
        }
    }
}

proof fn lemma_trim_end_case(s: Seq<char>, t: Seq<char>)
    requires
        same_up_to_case(s, t),
    ensures
        same_up_to_case(trim_end(s), trim_end(t)),
    decreases s.len(),
{
    if s.len() > 0 {
        lemma_space_ignores_case(s.last(), t.last());
        if is_space(s.last()) {
            assert forall|i: int| 0 <= i < s.len() - 1 implies lower_char(
                #[trigger] s.drop_last()[i],
            ) == lower_char(t.drop_last()[i]) by {
                assert(s.drop_last()[i] == s[i]);
            }
            lemma_trim_end_case(s.drop_last(), t.drop_last());
        }
    }
}

/// Normalisation ignores case and surrounding white space: an input that
/// differs from a valid one only in the case of its letters, padded with
/// white space on either side, is valid and has the same canonical form.
pub proof fn lemma_normalize_ignores_case_and_padding(
    s: Seq<char>,
    t: Seq<char>,
    pre: Seq<char>,
    post: Seq<char>,
)
    requires
        is_valid_wallet(s),
        same_up_to_case(s, t),
        all_space(pre),
        all_space(post),
    ensures
        is_valid_wallet(pre + t + post),
        canonical_wallet(pre + t + post) == canonical_wallet(s),
{
    lemma_trim_start_case(s, t);
    lemma_trim_end_case(trim_start(s), trim_start(t));
    assert(trimmed(t).len() == WALLET_LEN);
    assert(trim_start(t).len() > 0);
    assert(pre + t + post =~= pre + (t + post));
    lemma_trim_start_padding(pre, t + post);
    lemma_trim_start_append(t, post);
    lemma_trim_end_padding(trim_start(t), post);
    assert(trimmed(pre + t + post) == trimmed(t));
    assert(canonical_wallet(pre + t + post) =~= canonical_wallet(s));
}

} // verus!
