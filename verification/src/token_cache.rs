//! The durable token cache: the value a successful grant produces, its
//! serialized form, and the parser that reads it back.
//!
//! Reading and writing the cache file is the caller's business; the library
//! fixes the document format and proves that a saved record is read back
//! unchanged.

use vstd::prelude::*;

verus! {

/// Why a stored record could not be read.
#[derive(Clone, Copy, Debug, PartialEq, Eq)]
pub enum CacheError {
    /// No cache file exists yet: the expected first-run state.
    NotFound,
    /// A file exists but does not hold a record: an actual fault.
    Corrupt,
}

/// What a successful grant or refresh returns: the bearer token, an
/// optional refresh token, and the provider-declared lifetime in seconds.
#[derive(Clone, Debug)]
pub struct TokenResult {
    pub access_token: String,
    pub refresh_token: Option<String>,
    pub expires_in: Option<u64>,
}

/// The durable form of the latest [`TokenResult`]. `expires_at` is an
/// absolute unix timestamp in seconds: the issuance time plus the lifetime
/// the provider declared when the record was written.
#[derive(Clone, Debug, PartialEq, Eq)]
pub struct CachedToken {
    pub access_token: String,
    pub expires_at: u64,
    pub refresh_token: Option<String>,
}

/// The lifetime a token response declares, with the conventional hour
/// assumed when the provider did not say.
pub open spec fn declared_lifetime(t: TokenResult) -> u64 {
    match t.expires_in {
        Some(s) => s,
        None => 3600,
    }
}

impl CachedToken {
    /// Stamps a grant result with its absolute expiry.
    pub fn from_token_result(t: TokenResult, now: u64) -> (r: CachedToken)
        requires
            now + declared_lifetime(t) <= u64::MAX,
        ensures
            r.access_token == t.access_token,
            r.refresh_token == t.refresh_token,
            r.expires_at == now + declared_lifetime(t),
    {
        let lifetime: u64 = match t.expires_in {
            Some(s) => s,
            None => 3600,
        };
        CachedToken {
            access_token: t.access_token,
            expires_at: now + lifetime,
            refresh_token: t.refresh_token,
        }
    }
}

/// How one character is written inside a JSON string: quote and backslash
/// get a backslash escape, every other character stands as itself.
pub open spec fn escape_char(c: char) -> Seq<char> {
    if c == '"' || c == '\\' {
        seq!['\\', c]
    } else {
        seq![c]
    }
}

/// A string's characters as written inside a JSON string literal.
pub open spec fn escape_seq(s: Seq<char>) -> Seq<char>
    decreases s.len(),
{
    if s.len() == 0 {
        Seq::empty()
    } else {
        escape_char(s[0]) + escape_seq(s.drop_first())
    }
}

/// Escaping extends one character at a time from the right as well.
pub proof fn lemma_escape_seq_push(s: Seq<char>, c: char)
    ensures
        escape_seq(s.push(c)) == escape_seq(s) + escape_char(c),
    decreases s.len(),
{
    if s.len() == 0 {
        assert(s.push(c) =~= seq![c]);
        assert(s.push(c).drop_first() =~= Seq::<char>::empty());
        assert(s.push(c)[0] == c);
        assert(escape_seq(Seq::<char>::empty()) == Seq::<char>::empty());
        assert(escape_seq(s) == Seq::<char>::empty());
        assert(escape_seq(s.push(c)) == escape_char(c) + escape_seq(Seq::<char>::empty()));
        assert(escape_seq(s.push(c)) =~= escape_seq(s) + escape_char(c));
    } else {
        lemma_escape_seq_push(s.drop_first(), c);
        assert(s.push(c).drop_first() =~= s.drop_first().push(c));
        assert(s.push(c)[0] == s[0]);
        assert(s.push(c).len() > 0);
        assert(escape_seq(s.push(c)) == escape_char(s[0]) + escape_seq(s.drop_first().push(c)));
        assert(escape_seq(s.push(c)) == escape_char(s[0]) + (escape_seq(s.drop_first())
            + escape_char(c)));
        assert(escape_seq(s.push(c)) =~= escape_seq(s) + escape_char(c));
    }
}

/// The digit characters.
pub open spec fn dec_digit(d: int) -> char {
    if d == 0 {
        '0'
    } else if d == 1 {
        '1'
    } else if d == 2 {
        '2'
    } else if d == 3 {
        '3'
    } else if d == 4 {
        '4'
    } else if d == 5 {
        '5'
    } else if d == 6 {
        '6'
    } else if d == 7 {
        '7'
    } else if d == 8 {
        '8'
    } else {
        '9'
    }
}

/// A non-negative integer in decimal, without leading zeros.
pub open spec fn dec_rep(n: int) -> Seq<char>
    decreases n,
{
    if n < 10 {
        seq![dec_digit(n)]
    } else {
        dec_rep(n / 10) + seq![dec_digit(n % 10)]
    }
}

/// A decimal representation is never empty and holds digits only.
proof fn lemma_dec_rep_digits(n: int)
    ensures
        dec_rep(n).len() >= 1,
        forall|i: int| 0 <= i < dec_rep(n).len() ==> is_dec_digit(#[trigger] dec_rep(n)[i]),
    decreases n,
{
    if n >= 10 {
        lemma_dec_rep_digits(n / 10);
    }
}

/// Different numbers have different decimal representations.
proof fn lemma_dec_rep_injective(m: int, n: int)
    requires
        m >= 0,
        n >= 0,
        dec_rep(m) == dec_rep(n),
    ensures
        m == n,
    decreases m,
{
    lemma_dec_rep_digits(m / 10);
    lemma_dec_rep_digits(n / 10);
    if m < 10 && n < 10 {
        assert(dec_rep(m)[0] == dec_digit(m) && dec_rep(n)[0] == dec_digit(n));
    } else if m >= 10 && n >= 10 {
        assert(dec_rep(m).last() == dec_digit(m % 10) && dec_rep(n).last() == dec_digit(n % 10));
        assert(m % 10 == n % 10);
        assert(dec_rep(m).drop_last() =~= dec_rep(m / 10));
        assert(dec_rep(n).drop_last() =~= dec_rep(n / 10));
        lemma_dec_rep_injective(m / 10, n / 10);
    } else if m < 10 {
        assert(dec_rep(n).len() >= 2);
        assert(false);
    } else {
        assert(dec_rep(m).len() >= 2);
        assert(false);
    }
}

/// A positive number's representation never starts with a zero.
proof fn lemma_dec_rep_first_nonzero(n: int)
    requires
        n >= 1,
    ensures
        dec_rep(n)[0] != '0',
    decreases n,
{
    if n >= 10 {
        lemma_dec_rep_first_nonzero(n / 10);
        lemma_dec_rep_digits(n / 10);
        assert(dec_rep(n)[0] == dec_rep(n / 10)[0]);
    }
}

/// A number is at least what its leading digits already say.
proof fn lemma_dec_rep_prefix_value(m: int, v: int, c: char, rest: Seq<char>)
    requires
        m >= 0,
        v >= 1,
        is_dec_digit(c),
        dec_rep(m) == dec_rep(v) + seq![c] + rest,
    ensures
        m >= v * 10 + digit_val(c),
    decreases rest.len(),
{
    lemma_dec_rep_digits(v);
    lemma_dec_rep_digits(m);
    if m < 10 {
        assert(dec_rep(m).len() == 1);
        assert((dec_rep(v) + seq![c] + rest).len() >= 2);
        assert(false);
    }
    if rest.len() == 0 {
        assert(dec_rep(m).last() == dec_digit(m % 10));
        assert((dec_rep(v) + seq![c] + rest).last() == c);
        assert(digit_val(dec_digit(m % 10)) == m % 10);
        assert(dec_rep(m).drop_last() =~= dec_rep(m / 10));
        assert((dec_rep(v) + seq![c] + rest).drop_last() =~= dec_rep(v));
        lemma_dec_rep_injective(m / 10, v);
    } else {
        assert(dec_rep(m).drop_last() =~= dec_rep(m / 10));
        assert((dec_rep(v) + seq![c] + rest).drop_last() =~= dec_rep(v) + seq![c]
            + rest.drop_last());
        lemma_dec_rep_prefix_value(m / 10, v, c, rest.drop_last());
    }
}

/// A decimal region followed by a non-digit is determined by the text: the
/// number and what follows it are both fixed.
proof fn lemma_dec_rep_cancel(m: int, n: int, x: Seq<char>, y: Seq<char>)
    requires
        m >= 0,
        n >= 0,
        dec_rep(m) + x == dec_rep(n) + y,
        x.len() == 0 || !is_dec_digit(x[0]),
        y.len() == 0 || !is_dec_digit(y[0]),
    ensures
        m == n,
        x == y,
{
    lemma_dec_rep_digits(m);
    lemma_dec_rep_digits(n);
    let s = dec_rep(m) + x;
    let la = dec_rep(m).len() as int;
    let lb = dec_rep(n).len() as int;
    assert((dec_rep(m) + x).len() == la + x.len());
    assert((dec_rep(n) + y).len() == lb + y.len());
    if la < lb {
        assert(x.len() > 0);
        assert(s[la] == x[0]);
        assert(s[la] == dec_rep(n)[la]);
        assert(false);
    } else if lb < la {
        assert(y.len() > 0);
        assert(s[lb] == y[0]);
        assert(s[lb] == dec_rep(m)[lb]);
        assert(false);
    }
    assert forall|i: int| 0 <= i < la implies dec_rep(m)[i] == dec_rep(n)[i] by {
        assert(s[i] == dec_rep(m)[i]);
        assert(s[i] == dec_rep(n)[i]);
    }
    assert(dec_rep(m) =~= dec_rep(n));
    lemma_dec_rep_injective(m, n);
    lemma_concat_cancel(dec_rep(m), x, y);
}

/// A string's representation in the cache document: the escaped
/// characters and the closing quote.
pub open spec fn json_string_rep(s: Seq<char>) -> Seq<char> {
    escape_seq(s) + "\""@
}

/// The refresh-token member: a string, or `null` when there is none.
pub open spec fn refresh_token_rep(rt: Option<String>) -> Seq<char> {
    match rt {
        Some(r) => "\""@ + json_string_rep(r@),
        None => "null"@,
    }
}

/// The one document a record is stored as: a JSON object with the access
/// token, the absolute expiry in seconds, and the refresh token or null,
/// in that order. The expiry is written as a JSON number of unix seconds
/// rather than a formatted timestamp string: the file is private to this
/// client, and the round-trip proofs below are for this form.
pub open spec fn cached_token_json(t: CachedToken) -> Seq<char> {
    "{\"access_token\":\""@ + json_string_rep(t.access_token@) + ",\"expires_at\":"@ + dec_rep(
        t.expires_at as int,
    ) + ",\"refresh_token\":"@ + refresh_token_rep(t.refresh_token) + "}"@
}

/// The save/load round trip cannot change a record: two records with the
/// same cache document agree on the access token, the expiry, and the
/// refresh token. With [`CachedToken::serialize`] writing exactly the
/// document of the saved record and [`parse_cached_token`] accepting a
/// text only as the document of what it returns, a load after a save
/// yields the saved fields back.
pub proof fn lemma_cached_token_json_injective(a: CachedToken, b: CachedToken)
    requires
        cached_token_json(a) == cached_token_json(b),
    ensures
        a.access_token@ == b.access_token@,
        a.expires_at == b.expires_at,
        match (a.refresh_token, b.refresh_token) {
            (Some(x), Some(y)) => x@ == y@,
            (None, None) => true,
            _ => false,
        },
{
    reveal_strlit("{\"access_token\":\"");
    reveal_strlit(",\"expires_at\":");
    reveal_strlit(",\"refresh_token\":");
    reveal_strlit("null");
    reveal_strlit("\"");
    reveal_strlit("}");
    let l1 = "{\"access_token\":\""@;
    let l2 = ",\"expires_at\":"@;
    let l3 = ",\"refresh_token\":"@;
    let r = "}"@;
    let tail_a = l2 + (dec_rep(a.expires_at as int) + (l3 + (refresh_token_rep(a.refresh_token)
        + r)));
    let tail_b = l2 + (dec_rep(b.expires_at as int) + (l3 + (refresh_token_rep(b.refresh_token)
        + r)));
    assert(cached_token_json(a) =~= l1 + (json_string_rep(a.access_token@) + tail_a));
    assert(cached_token_json(b) =~= l1 + (json_string_rep(b.access_token@) + tail_b));
    lemma_concat_cancel(
        l1,
        json_string_rep(a.access_token@) + tail_a,
        json_string_rep(b.access_token@) + tail_b,
    );
    lemma_string_rep_cancel(a.access_token@, b.access_token@, tail_a, tail_b);
    lemma_concat_cancel(
        l2,
        dec_rep(a.expires_at as int) + (l3 + (refresh_token_rep(a.refresh_token) + r)),
        dec_rep(b.expires_at as int) + (l3 + (refresh_token_rep(b.refresh_token) + r)),
    );
    let after_a = l3 + (refresh_token_rep(a.refresh_token) + r);
    let after_b = l3 + (refresh_token_rep(b.refresh_token) + r);
    assert(after_a[0] == ',' && after_b[0] == ',');
    assert(!is_dec_digit(','));
    lemma_dec_rep_cancel(a.expires_at as int, b.expires_at as int, after_a, after_b);
    lemma_concat_cancel(
        l3,
        refresh_token_rep(a.refresh_token) + r,
        refresh_token_rep(b.refresh_token) + r,
    );
    match (a.refresh_token, b.refresh_token) {
        (Some(x), Some(y)) => {
            assert(refresh_token_rep(a.refresh_token) + r =~= "\""@ + (json_string_rep(x@) + r));
            assert(refresh_token_rep(b.refresh_token) + r =~= "\""@ + (json_string_rep(y@) + r));
            lemma_concat_cancel("\""@, json_string_rep(x@) + r, json_string_rep(y@) + r);
            lemma_string_rep_cancel(x@, y@, r, r);
        },
        (None, None) => {},
        (Some(x), None) => {
            assert((refresh_token_rep(a.refresh_token) + r)[0] == '"');
            assert((refresh_token_rep(b.refresh_token) + r)[0] == 'n');
            assert(false);
        },
        (None, Some(y)) => {
            assert((refresh_token_rep(a.refresh_token) + r)[0] == 'n');
            assert((refresh_token_rep(b.refresh_token) + r)[0] == '"');
            assert(false);
        },
    }
}

/// Appends one decimal digit.
fn append_digit(out: &mut String, d: u64)
    requires
        d < 10,
    ensures
        final(out)@ == old(out)@ + seq![dec_digit(d as int)],
{
    proof {
        reveal_strlit("0");
        reveal_strlit("1");
        reveal_strlit("2");
        reveal_strlit("3");
        reveal_strlit("4");
        reveal_strlit("5");
        reveal_strlit("6");
        reveal_strlit("7");
        reveal_strlit("8");
        reveal_strlit("9");
    }
    match d {
        0 => out.append("0"),
        1 => out.append("1"),
        2 => out.append("2"),
        3 => out.append("3"),
        4 => out.append("4"),
        5 => out.append("5"),
        6 => out.append("6"),
        7 => out.append("7"),
        8 => out.append("8"),
        _ => out.append("9"),
    }
    proof {
        assert(final(out)@ =~= old(out)@ + seq![dec_digit(d as int)]);
    }
}

/// Appends a number in decimal, as [`dec_rep`] writes it.
fn append_u64(out: &mut String, n: u64)
    ensures
        final(out)@ == old(out)@ + dec_rep(n as int),
    decreases n,
{
    if n < 10 {
        append_digit(out, n);
    } else {
        append_u64(out, n / 10);
        append_digit(out, n % 10);
        proof {
            assert(final(out)@ =~= old(out)@ + dec_rep(n as int));
        }
    }
}

/// Appends a string with its characters escaped, as [`escape_seq`] writes
/// them.
#[verifier::loop_isolation(false)]
fn append_escaped(out: &mut String, s: &str)
    ensures
        final(out)@ == old(out)@ + escape_seq(s@),
{
    let n = s.unicode_len();
    let mut i: usize = 0;
    while i < n
        invariant
            i <= n,
            n == s@.len(),
            out@ == old(out)@ + escape_seq(s@.take(i as int)),
        decreases n - i,
    {
        let c = s.get_char(i);
        if c == '"' {
            out.append("\\\"");
            proof {
                reveal_strlit("\\\"");
            }
        } else if c == '\\' {
            out.append("\\\\");
            proof {
                reveal_strlit("\\\\");
            }
        } else {
            let piece = s.substring_char(i, i + 1);
            out.append(piece);
        }
        proof {
            lemma_escape_seq_push(s@.take(i as int), s@[i as int]);
            assert(s@.take(i as int).push(s@[i as int]) =~= s@.take(i as int + 1));
            assert(out@ =~= old(out)@ + escape_seq(s@.take(i as int + 1)));
        }
        i = i + 1;
    }
    proof {
        assert(s@.take(n as int) =~= s@);
    }
}

/// Equal sequences stay equal when one shared prefix is dropped.
proof fn lemma_concat_cancel(p: Seq<char>, x: Seq<char>, y: Seq<char>)
    requires
        p + x == p + y,
    ensures
        x == y,
{
    assert((p + x).len() == p.len() + x.len());
    assert((p + y).len() == p.len() + y.len());
    assert(x.len() == y.len());
    assert forall|i: int| 0 <= i < x.len() implies x[i] == y[i] by {
        assert((p + x)[p.len() + i] == x[i]);
        assert((p + y)[p.len() + i] == y[i]);
    }
    assert(x =~= y);
}

/// A string region and whatever follows its closing quote are determined
/// by the text: the escaped form of one string followed by a quote can
/// never also read as the escaped form of a different string.
proof fn lemma_string_rep_cancel(a: Seq<char>, b: Seq<char>, x: Seq<char>, y: Seq<char>)
    requires
        json_string_rep(a) + x == json_string_rep(b) + y,
    ensures
        a == b,
        x == y,
    decreases a.len(),
{
    reveal_strlit("\"");
    let s = json_string_rep(a) + x;
    if a.len() == 0 {
        assert(escape_seq(a) == Seq::<char>::empty());
        assert(json_string_rep(a) =~= "\""@);
        assert(s[0] == '"');
        if b.len() > 0 {
            let e0 = escape_char(b[0]);
            assert(escape_seq(b) == e0 + escape_seq(b.drop_first()));
            assert(s[0] == e0[0]);
            if b[0] == '"' || b[0] == '\\' {
                assert(e0[0] == '\\');
            } else {
                assert(e0[0] == b[0]);
            }
            assert(false);
        }
        assert(json_string_rep(b) =~= "\""@);
        assert(a =~= b);
        lemma_concat_cancel("\""@, x, y);
    } else if b.len() == 0 {
        assert(escape_seq(b) == Seq::<char>::empty());
        assert(json_string_rep(b) =~= "\""@);
        assert(s[0] == '"');
        let e0 = escape_char(a[0]);
        assert(escape_seq(a) == e0 + escape_seq(a.drop_first()));
        assert(s[0] == e0[0]);
        if a[0] == '"' || a[0] == '\\' {
            assert(e0[0] == '\\');
        } else {
            assert(e0[0] == a[0]);
        }
        assert(false);
    } else {
        let ea = escape_char(a[0]);
        let eb = escape_char(b[0]);
        assert(escape_seq(a) == ea + escape_seq(a.drop_first()));
        assert(escape_seq(b) == eb + escape_seq(b.drop_first()));
        assert(s =~= ea + (json_string_rep(a.drop_first()) + x));
        assert(s =~= eb + (json_string_rep(b.drop_first()) + y));
        assert(s[0] == ea[0] && s[0] == eb[0]);
        let a_special = a[0] == '"' || a[0] == '\\';
        let b_special = b[0] == '"' || b[0] == '\\';
        if a_special && !b_special {
            assert(ea[0] == '\\' && eb[0] == b[0] && b[0] != '\\');
            assert(false);
        }
        if !a_special && b_special {
            assert(eb[0] == '\\' && ea[0] == a[0] && a[0] != '\\');
            assert(false);
        }
        if a_special && b_special {
            assert(s[1] == ea[1] && s[1] == eb[1]);
            assert(a[0] == b[0]);
        } else {
            assert(a[0] == b[0]);
        }
        assert(ea == eb);
        lemma_concat_cancel(
            ea,
            json_string_rep(a.drop_first()) + x,
            json_string_rep(b.drop_first()) + y,
        );
        lemma_string_rep_cancel(a.drop_first(), b.drop_first(), x, y);
        assert(a =~= seq![a[0]] + a.drop_first());
        assert(b =~= seq![b[0]] + b.drop_first());
    }
}

/// The decimal digits.
pub open spec fn is_dec_digit(c: char) -> bool {
    c == '0' || c == '1' || c == '2' || c == '3' || c == '4' || c == '5' || c == '6' || c == '7'
        || c == '8' || c == '9'
}

/// A digit character's value.
pub open spec fn digit_val(c: char) -> int {
    if c == '0' {
        0
    } else if c == '1' {
        1
    } else if c == '2' {
        2
    } else if c == '3' {
        3
    } else if c == '4' {
        4
    } else if c == '5' {
        5
    } else if c == '6' {
        6
    } else if c == '7' {
        7
    } else if c == '8' {
        8
    } else {
        9
    }
}

/// A digit's value, or `None` for any other character.
fn digit_of(c: char) -> (r: Option<u64>)
    ensures
        match r {
            Some(d) => is_dec_digit(c) && d == digit_val(c) && d < 10,
            None => !is_dec_digit(c),
        },
{
    match c {
        '0' => Some(0),
        '1' => Some(1),
        '2' => Some(2),
        '3' => Some(3),
        '4' => Some(4),
        '5' => Some(5),
        '6' => Some(6),
        '7' => Some(7),
        '8' => Some(8),
        '9' => Some(9),
        _ => None,
    }
}

/// Consumes an exact literal: `Some` with the next position exactly when
/// the text carries the literal at `i`.
#[verifier::loop_isolation(false)]
fn match_lit(s: &str, i: usize, lit: &str) -> (r: Option<usize>)
    requires
        i <= s@.len(),
    ensures
        match r {
            Some(j) => i + lit@.len() == j && j <= s@.len() && s@.subrange(i as int, j as int)
                == lit@,
            None => !(i + lit@.len() <= s@.len() && s@.subrange(
                i as int,
                i as int + lit@.len() as int,
            ) == lit@),
        },
{
    let n = s.unicode_len();
    let m = lit.unicode_len();
    if m > n - i {
        return None;
    }
    let mut k: usize = 0;
    while k < m
        invariant
            k <= m,
            forall|t: int| 0 <= t < k ==> s@[i + t] == lit@[t],
        decreases m - k,
    {
        if s.get_char(i + k) != lit.get_char(k) {
            proof {
                let d = s@.subrange(i as int, i as int + lit@.len() as int);
                assert(k < lit@.len() ==> d[k as int] != lit@[k as int]);
            }
            return None;
        }
        k = k + 1;
    }
    proof {
        assert(s@.subrange(i as int, i as int + lit@.len() as int) =~= lit@);
    }
    Some(i + m)
}

/// Consumes escaped string content and its closing quote: on success the
/// consumed text is exactly [`json_string_rep`] of the returned string.
/// Whether a complete string region (escaped content and closing quote)
/// stands at the head of `z`, with `w` after it.
pub open spec fn has_string_region(z: Seq<char>, a: Seq<char>, w: Seq<char>) -> bool {
    z == json_string_rep(a) + w
}

#[verifier::loop_isolation(false)]
fn parse_string(s: &str, start: usize) -> (r: Option<(String, usize)>)
    requires
        start <= s@.len(),
    ensures
        r matches Some(p) ==> start <= p.1 <= s@.len() && s@.subrange(start as int, p.1 as int)
            == json_string_rep(p.0@),
        r is None ==> forall|a: Seq<char>, w: Seq<char>|
            !has_string_region(s@.skip(start as int), a, w),
{
    let n = s.unicode_len();
    let mut out = String::new();
    let mut i: usize = start;
    proof {
        assert forall|a: Seq<char>, w: Seq<char>|
            has_string_region(s@.skip(start as int), a, w) implies exists|a2: Seq<char>|
            a == out@ + a2 && has_string_region(s@.skip(i as int), a2, w) by {
            assert(out@ + a =~= a);
            assert(a == out@ + a && has_string_region(s@.skip(i as int), a, w));
        }
    }
    loop
        invariant
            start <= i <= n,
            n == s@.len(),
            s@.subrange(start as int, i as int) == escape_seq(out@),
            forall|a: Seq<char>, w: Seq<char>|
                has_string_region(s@.skip(start as int), a, w) ==> exists|a2: Seq<char>|
                    a == out@ + a2 && has_string_region(s@.skip(i as int), a2, w),
        decreases n - i,
    {
        if i >= n {
            proof {
                assert forall|a: Seq<char>, w: Seq<char>|
                    !has_string_region(s@.skip(start as int), a, w) by {
                    if has_string_region(s@.skip(start as int), a, w) {
                        let a2 = choose|a2: Seq<char>|
                            a == out@ + a2 && has_string_region(s@.skip(i as int), a2, w);
                        lemma_string_region_nonempty(a2, w);
                        assert(s@.skip(i as int).len() == 0);
                    }
                }
            }
            return None;
        }
        let c = s.get_char(i);
        proof {
            assert(s@.skip(i as int)[0] == c);
        }
        if c == '"' {
            proof {
                reveal_strlit("\"");
                assert(s@.subrange(start as int, i as int + 1) =~= escape_seq(out@) + "\""@);
            }
            return Some((out, i + 1));
        } else if c == '\\' {
            if i + 1 >= n {
                proof {
                    assert forall|a: Seq<char>, w: Seq<char>|
                        !has_string_region(s@.skip(start as int), a, w) by {
                        if has_string_region(s@.skip(start as int), a, w) {
                            let a2 = choose|a2: Seq<char>|
                                a == out@ + a2 && has_string_region(s@.skip(i as int), a2, w);
                            lemma_string_region_after_backslash(s@.skip(i as int), a2, w);
                            assert(s@.skip(i as int).len() == 1);
                        }
                    }
                }
                return None;
            }
            let c2 = s.get_char(i + 1);
            proof {
                assert(s@.skip(i as int)[1] == c2);
            }
            if c2 == '"' || c2 == '\\' {
                let ghost prev = out@;
                let piece = s.substring_char(i + 1, i + 2);
                out.append(piece);
                proof {
                    lemma_escape_seq_push(prev, c2);
                    assert(piece@ =~= seq![c2]);
                    assert(out@ =~= prev.push(c2));
                    assert(escape_char(c2) =~= seq!['\\', c2]);
                    assert(s@.subrange(start as int, i as int + 2) =~= escape_seq(prev)
                        + escape_char(c2));
                    assert forall|a: Seq<char>, w: Seq<char>|
                        has_string_region(s@.skip(start as int), a, w) implies exists|
                        a2: Seq<char>,
                    |
                        a == out@ + a2 && has_string_region(s@.skip(i as int + 2), a2, w) by {
                        let a2 = choose|a2: Seq<char>|
                            a == prev + a2 && has_string_region(s@.skip(i as int), a2, w);
                        lemma_string_region_after_backslash(s@.skip(i as int), a2, w);
                        assert(a2[0] == c2);
                        assert(s@.skip(i as int).skip(2) =~= s@.skip(i as int + 2));
                        assert(a == out@ + a2.drop_first());
                        assert(has_string_region(s@.skip(i as int + 2), a2.drop_first(), w));
                    }
                }
                i = i + 2;
            } else {
                proof {
                    assert forall|a: Seq<char>, w: Seq<char>|
                        !has_string_region(s@.skip(start as int), a, w) by {
                        if has_string_region(s@.skip(start as int), a, w) {
                            let a2 = choose|a2: Seq<char>|
                                a == out@ + a2 && has_string_region(s@.skip(i as int), a2, w);
                            lemma_string_region_after_backslash(s@.skip(i as int), a2, w);
                        }
                    }
                }
                return None;
            }
        } else {
            let ghost prev = out@;
            let piece = s.substring_char(i, i + 1);
            out.append(piece);
            proof {
                lemma_escape_seq_push(prev, c);
                assert(piece@ =~= seq![c]);
                assert(out@ =~= prev.push(c));
                assert(escape_char(c) =~= seq![c]);
                assert(s@.subrange(start as int, i as int + 1) =~= escape_seq(prev)
                    + escape_char(c));
                assert forall|a: Seq<char>, w: Seq<char>|
                    has_string_region(s@.skip(start as int), a, w) implies exists|a2: Seq<char>|
                    a == out@ + a2 && has_string_region(s@.skip(i as int + 1), a2, w) by {
                    let a2 = choose|a2: Seq<char>|
                        a == prev + a2 && has_string_region(s@.skip(i as int), a2, w);
                    lemma_string_region_after_normal(s@.skip(i as int), a2, w, c);
                    assert(a2[0] == c);
                    assert(s@.skip(i as int).skip(1) =~= s@.skip(i as int + 1));
                    assert(a == out@ + a2.drop_first());
                    assert(has_string_region(s@.skip(i as int + 1), a2.drop_first(), w));
                }
            }
            i = i + 1;
        }
    }
}

/// A string region is at least one character long: the closing quote.
proof fn lemma_string_region_nonempty(a: Seq<char>, w: Seq<char>)
    ensures
        (json_string_rep(a) + w).len() >= 1,
{
    reveal_strlit("\"");
}

/// Under a backslash, a string region continues with an escaped quote or
/// backslash, and is at least two characters long.
proof fn lemma_string_region_after_backslash(z: Seq<char>, a: Seq<char>, w: Seq<char>)
    requires
        has_string_region(z, a, w),
        z.len() >= 1,
        z[0] == '\\',
    ensures
        z.len() >= 2,
        a.len() >= 1,
        a[0] == '"' || a[0] == '\\',
        z[1] == a[0],
        has_string_region(z.skip(2), a.drop_first(), w),
{
    reveal_strlit("\"");
    if a.len() == 0 {
        assert(z[0] == '"');
        assert(false);
    }
    let e0 = escape_char(a[0]);
    assert(escape_seq(a) == e0 + escape_seq(a.drop_first()));
    assert(z =~= e0 + (json_string_rep(a.drop_first()) + w));
    if !(a[0] == '"' || a[0] == '\\') {
        assert(z[0] == a[0]);
        assert(false);
    }
    assert(z[1] == e0[1]);
    assert(z.skip(2) =~= json_string_rep(a.drop_first()) + w);
}

/// Under an ordinary character, a string region continues with exactly
/// that character.
proof fn lemma_string_region_after_normal(z: Seq<char>, a: Seq<char>, w: Seq<char>, c: char)
    requires
        has_string_region(z, a, w),
        z.len() >= 1,
        z[0] == c,
        c != '"',
        c != '\\',
    ensures
        a.len() >= 1,
        a[0] == c,
        has_string_region(z.skip(1), a.drop_first(), w),
{
    reveal_strlit("\"");
    if a.len() == 0 {
        assert(z[0] == '"');
        assert(false);
    }
    let e0 = escape_char(a[0]);
    assert(escape_seq(a) == e0 + escape_seq(a.drop_first()));
    assert(z =~= e0 + (json_string_rep(a.drop_first()) + w));
    if a[0] == '"' || a[0] == '\\' {
        assert(z[0] == '\\');
        assert(false);
    }
    assert(z[0] == a[0]);
    assert(z.skip(1) =~= json_string_rep(a.drop_first()) + w);
}

/// Whether a decimal region (a number without leading zeros, ending the
/// text or followed by a non-digit) stands at the head of `z`.
pub open spec fn has_dec_region(z: Seq<char>, m: int, w: Seq<char>) -> bool {
    z == dec_rep(m) + w && (w.len() == 0 || !is_dec_digit(w[0]))
}

/// Consumes a decimal number written without leading zeros, greedily: on
/// success the consumed text is exactly [`dec_rep`] of the value and the
/// next character, if any, is no digit. `None` only when no number that
/// fits in `u64` stands here.
#[verifier::loop_isolation(false)]
fn parse_u64(s: &str, start: usize) -> (r: Option<(u64, usize)>)
    requires
        start <= s@.len(),
    ensures
        r matches Some(p) ==> start < p.1 <= s@.len() && s@.subrange(start as int, p.1 as int)
            == dec_rep(p.0 as int) && (p.1 == s@.len() || !is_dec_digit(s@[p.1 as int])),
        r is None ==> forall|m: u64, w: Seq<char>|
            !has_dec_region(s@.skip(start as int), m as int, w),
{
    let n = s.unicode_len();
    let ghost z = s@.skip(start as int);
    if start >= n {
        proof {
            assert forall|m: u64, w: Seq<char>| !has_dec_region(z, m as int, w) by {
                lemma_dec_rep_digits(m as int);
            }
        }
        return None;
    }
    let c0 = s.get_char(start);
    proof {
        assert(z[0] == c0);
    }
    let d0 = match digit_of(c0) {
        Some(d) => d,
        None => {
            proof {
                assert forall|m: u64, w: Seq<char>| !has_dec_region(z, m as int, w) by {
                    lemma_dec_rep_digits(m as int);
                    if has_dec_region(z, m as int, w) {
                        assert(z[0] == dec_rep(m as int)[0]);
                    }
                }
            }
            return None;
        },
    };
    proof {
        assert(s@.subrange(start as int, start as int + 1) =~= seq![s@[start as int]]);
    }
    if d0 == 0 {
        if start + 1 < n {
            match digit_of(s.get_char(start + 1)) {
                Some(_) => {
                    proof {
                        assert(z[1] == s@[start as int + 1]);
                        assert forall|m: u64, w: Seq<char>| !has_dec_region(z, m as int, w) by {
                            if has_dec_region(z, m as int, w) {
                                lemma_dec_rep_digits(m as int);
                                assert(z[0] == dec_rep(m as int)[0]);
                                if m >= 1 {
                                    lemma_dec_rep_first_nonzero(m as int);
                                }
                                assert(m == 0);
                                assert(dec_rep(0).len() == 1);
                                assert(w.len() > 0 && z[1] == w[0]);
                            }
                        }
                    }
                    return None;
                },
                None => {},
            }
        }
        return Some((0, start + 1));
    }
    let mut value: u64 = d0;
    let mut i: usize = start + 1;
    proof {
        assert forall|m: u64, w: Seq<char>| has_dec_region(z, m as int, w) implies exists|
            rest: Seq<char>,
        |
            dec_rep(m as int) == dec_rep(value as int) + rest && s@.skip(i as int) == rest + w by {
            lemma_dec_rep_digits(m as int);
            assert(z[0] == dec_rep(m as int)[0]);
            if m >= 1 {
                lemma_dec_rep_first_nonzero(m as int);
            }
            if m < 10 {
                assert(dec_rep(m as int) =~= seq![c0]);
            }
            assert(m >= 10 ==> dec_rep(m as int)[0] == dec_rep(m as int / 10)[0]);
            assert(dec_rep(value as int) =~= seq![dec_digit(d0 as int)]);
            assert(dec_digit(digit_val(c0)) == c0);
            let rest = dec_rep(m as int).drop_first();
            assert(dec_rep(m as int) =~= dec_rep(value as int) + rest);
            assert(z.skip(1) =~= rest + w);
            assert(z.skip(1) =~= s@.skip(i as int));
            assert(s@.skip(i as int) =~= rest + w);
        }
    }
    loop
        invariant
            start < i <= n,
            n == s@.len(),
            1 <= value,
            s@.subrange(start as int, i as int) == dec_rep(value as int),
            forall|m: u64, w: Seq<char>|
                has_dec_region(z, m as int, w) ==> exists|rest: Seq<char>|
                    dec_rep(m as int) == dec_rep(value as int) + rest && s@.skip(i as int) == rest
                        + w,
        decreases n - i,
    {
        if i >= n {
            return Some((value, i));
        }
        let c = s.get_char(i);
        proof {
            assert(s@.skip(i as int)[0] == c);
        }
        let d = match digit_of(c) {
            Some(d) => d,
            None => { return Some((value, i)) },
        };
        if value > u64::MAX / 10 || (value == u64::MAX / 10 && d > u64::MAX % 10) {
            proof {
                assert forall|m: u64, w: Seq<char>| !has_dec_region(z, m as int, w) by {
                    if has_dec_region(z, m as int, w) {
                        let rest = choose|rest: Seq<char>|
                            dec_rep(m as int) == dec_rep(value as int) + rest && s@.skip(i as int)
                                == rest + w;
                        assert(rest.len() > 0) by {
                            if rest.len() == 0 {
                                assert(s@.skip(i as int) =~= w);
                            }
                        }
                        assert(rest[0] == c);
                        assert(dec_rep(m as int) =~= dec_rep(value as int) + seq![c]
                            + rest.drop_first());
                        lemma_dec_rep_prefix_value(
                            m as int,
                            value as int,
                            c,
                            rest.drop_first(),
                        );
                        assert(value * 10 + digit_val(c) > u64::MAX) by (nonlinear_arith)
                            requires
                                digit_val(c) == d as int,
                                d < 10,
                                value > u64::MAX / 10 || (value == u64::MAX / 10 && d > u64::MAX
                                    % 10),
                        ;
                    }
                }
            }
            return None;
        }
        proof {
            assert(value * 10 + d <= u64::MAX) by (nonlinear_arith)
                requires
                    d < 10,
                    value <= u64::MAX / 10,
                    value == u64::MAX / 10 ==> d <= u64::MAX % 10,
            ;
        }
        let ghost prev = value;
        value = value * 10 + d;
        proof {
            assert(value as int / 10 == prev as int && value as int % 10 == digit_val(c) && value
                >= 10) by (nonlinear_arith)
                requires
                    value == prev * 10 + digit_val(c),
                    0 <= digit_val(c) < 10,
                    prev >= 1,
            ;
            assert(dec_rep(value as int) == dec_rep(prev as int) + seq![dec_digit(digit_val(c))]);
            assert(dec_digit(digit_val(c)) == c);
            assert(s@.subrange(start as int, i as int + 1) =~= dec_rep(prev as int) + seq![c]);
            assert forall|m: u64, w: Seq<char>| has_dec_region(z, m as int, w) implies exists|
                rest: Seq<char>,
            |
                dec_rep(m as int) == dec_rep(value as int) + rest && s@.skip(i as int + 1) == rest
                    + w by {
                let rest = choose|rest: Seq<char>|
                    dec_rep(m as int) == dec_rep(prev as int) + rest && s@.skip(i as int) == rest
                        + w;
                assert(rest.len() > 0) by {
                    if rest.len() == 0 {
                        assert(s@.skip(i as int) =~= w);
                    }
                }
                assert(rest[0] == c);
                assert(dec_rep(m as int) =~= dec_rep(value as int) + rest.drop_first());
                assert(s@.skip(i as int).skip(1) =~= s@.skip(i as int + 1));
                assert(s@.skip(i as int + 1) =~= rest.drop_first() + w);
            }
        }
        i = i + 1;
    }
}

/// Whether a text is some record's cache document.
pub open spec fn is_cached_token_doc(s: Seq<char>) -> bool {
    exists|t: CachedToken| s == cached_token_json(t)
}

/// What follows the expiry number in a document.
pub open spec fn doc_tail_refresh(t: CachedToken) -> Seq<char> {
    ",\"refresh_token\":"@ + (refresh_token_rep(t.refresh_token) + "}"@)
}

/// What follows the opening literal in a document.
pub open spec fn doc_tail_access(t: CachedToken) -> Seq<char> {
    json_string_rep(t.access_token@) + (",\"expires_at\":"@ + (dec_rep(t.expires_at as int)
        + doc_tail_refresh(t)))
}

/// A prefix standing at a position fixes the text there and what follows.
proof fn lemma_prefix_at(s: Seq<char>, i: int, p: Seq<char>, x: Seq<char>)
    requires
        0 <= i <= s.len(),
        s.skip(i) == p + x,
    ensures
        i + p.len() <= s.len(),
        s.subrange(i, i + p.len()) == p,
        s.skip(i + p.len()) == x,
{
    assert(s.skip(i).len() == s.len() - i);
    assert((p + x).len() == p.len() + x.len());
    assert forall|k: int| 0 <= k < p.len() implies s.subrange(i, i + p.len())[k] == p[k] by {
        assert(s.skip(i)[k] == s[i + k]);
        assert(s.subrange(i, i + p.len())[k] == s[i + k]);
        assert((p + x)[k] == p[k]);
    }
    assert(s.subrange(i, i + p.len()) =~= p);
    assert forall|k: int| 0 <= k < x.len() implies s.skip(i + p.len())[k] == x[k] by {
        assert(s.skip(i + p.len())[k] == s[i + p.len() + k]);
        assert(s.skip(i)[p.len() + k] == s[i + p.len() + k]);
        assert((p + x)[p.len() + k] == x[k]);
    }
    assert(s.skip(i + p.len()) =~= x);
}

/// A document is the opening literal followed by the rest of the record.
proof fn lemma_doc_shape(t: CachedToken, s: Seq<char>)
    requires
        s == cached_token_json(t),
    ensures
        s == "{\"access_token\":\""@ + doc_tail_access(t),
{
    assert(s =~= "{\"access_token\":\""@ + doc_tail_access(t));
}

/// A document opens with its literal, and the access-token string region
/// follows at once.
proof fn lemma_doc_start(t: CachedToken, s: Seq<char>)
    requires
        s == cached_token_json(t),
    ensures
        "{\"access_token\":\""@.len() <= s.len(),
        s.subrange(0, "{\"access_token\":\""@.len() as int) == "{\"access_token\":\""@,
        has_string_region(
            s.skip("{\"access_token\":\""@.len() as int),
            t.access_token@,
            ",\"expires_at\":"@ + (dec_rep(t.expires_at as int) + doc_tail_refresh(t)),
        ),
{
    lemma_doc_shape(t, s);
    assert(s.skip(0) =~= s);
    lemma_prefix_at(s, 0, "{\"access_token\":\""@, doc_tail_access(t));
}

/// Past the access-token region, the document fixes the parsed string, the
/// expiry literal, and the decimal region after it.
proof fn lemma_doc_after_access(t: CachedToken, s: Seq<char>, i1: int, a: Seq<char>, i2: int)
    requires
        s == cached_token_json(t),
        i1 == "{\"access_token\":\""@.len(),
        0 <= i1 <= i2 <= s.len(),
        s.subrange(i1, i2) == json_string_rep(a),
    ensures
        a == t.access_token@,
        i2 + ",\"expires_at\":"@.len() <= s.len(),
        s.subrange(i2, i2 + ",\"expires_at\":"@.len()) == ",\"expires_at\":"@,
        has_dec_region(
            s.skip(i2 + ",\"expires_at\":"@.len()),
            t.expires_at as int,
            doc_tail_refresh(t),
        ),
{
    lemma_doc_start(t, s);
    assert(s.skip(i1) =~= json_string_rep(a) + s.skip(i2));
    lemma_string_rep_cancel(
        a,
        t.access_token@,
        s.skip(i2),
        ",\"expires_at\":"@ + (dec_rep(t.expires_at as int) + doc_tail_refresh(t)),
    );
    lemma_prefix_at(
        s,
        i2,
        ",\"expires_at\":"@,
        dec_rep(t.expires_at as int) + doc_tail_refresh(t),
    );
    reveal_strlit(",\"refresh_token\":");
    assert(doc_tail_refresh(t)[0] == ',');
    assert(!is_dec_digit(','));
}

/// Past the decimal region, the document fixes the expiry value, the
/// refresh literal, and the refresh part after it.
proof fn lemma_doc_after_expires(t: CachedToken, s: Seq<char>, i3: int, v: u64, i4: int)
    requires
        has_dec_region(s.skip(i3), t.expires_at as int, doc_tail_refresh(t)),
        0 <= i3 < i4 <= s.len(),
        s.subrange(i3, i4) == dec_rep(v as int),
        i4 == s.len() || !is_dec_digit(s[i4]),
    ensures
        v == t.expires_at,
        i4 + ",\"refresh_token\":"@.len() <= s.len(),
        s.subrange(i4, i4 + ",\"refresh_token\":"@.len()) == ",\"refresh_token\":"@,
        s.skip(i4 + ",\"refresh_token\":"@.len()) == refresh_token_rep(t.refresh_token) + "}"@,
{
    assert(s.skip(i3) =~= dec_rep(v as int) + s.skip(i4));
    assert(i4 < s.len() ==> s.skip(i4)[0] == s[i4]);
    reveal_strlit(",\"refresh_token\":");
    assert(doc_tail_refresh(t)[0] == ',');
    assert(!is_dec_digit(','));
    lemma_dec_rep_cancel(v as int, t.expires_at as int, s.skip(i4), doc_tail_refresh(t));
    lemma_prefix_at(s, i4, ",\"refresh_token\":"@, refresh_token_rep(t.refresh_token) + "}"@);
}

/// With no refresh token, the document closes with `null` and the brace.
proof fn lemma_doc_refresh_null(t: CachedToken, s: Seq<char>, i5: int)
    requires
        t.refresh_token is None,
        0 <= i5 <= s.len(),
        s.skip(i5) == refresh_token_rep(t.refresh_token) + "}"@,
    ensures
        i5 + "null"@.len() <= s.len(),
        s.subrange(i5, i5 + "null"@.len()) == "null"@,
        i5 + "null"@.len() + "}"@.len() <= s.len(),
        s.subrange(i5 + "null"@.len(), i5 + "null"@.len() + "}"@.len()) == "}"@,
        s.len() == i5 + "null"@.len() + "}"@.len(),
        s.skip(i5 + "null"@.len()) == "}"@ + Seq::<char>::empty(),
{
    reveal_strlit("null");
    reveal_strlit("}");
    assert(s.skip(i5) =~= "null"@ + "}"@);
    lemma_prefix_at(s, i5, "null"@, "}"@);
    assert(s.skip(i5 + 4) =~= "}"@ + Seq::<char>::empty());
    lemma_prefix_at(s, i5 + 4, "}"@, Seq::<char>::empty());
}

/// With a refresh token, the document continues with a quote and the
/// token's string region, and cannot read as `null`.
proof fn lemma_doc_refresh_some(t: CachedToken, s: Seq<char>, i5: int)
    requires
        t.refresh_token is Some,
        0 <= i5 <= s.len(),
        s.skip(i5) == refresh_token_rep(t.refresh_token) + "}"@,
    ensures
        i5 + "\""@.len() <= s.len(),
        s.subrange(i5, i5 + "\""@.len()) == "\""@,
        has_string_region(s.skip(i5 + "\""@.len()), t.refresh_token.unwrap()@, "}"@),
        !(i5 + "null"@.len() <= s.len() && s.subrange(i5, i5 + "null"@.len()) == "null"@),
{
    reveal_strlit("\"");
    reveal_strlit("null");
    let rt = t.refresh_token.unwrap();
    assert(s.skip(i5) =~= "\""@ + (json_string_rep(rt@) + "}"@));
    lemma_prefix_at(s, i5, "\""@, json_string_rep(rt@) + "}"@);
    assert(s[i5] == s.skip(i5)[0]);
    if i5 + 4 <= s.len() && s.subrange(i5, i5 + 4) == "null"@ {
        assert(s.subrange(i5, i5 + 4)[0] == s[i5]);
        assert(false);
    }
}

/// Past the refresh token's string region, only the closing brace is left.
proof fn lemma_doc_after_refresh_string(
    t: CachedToken,
    s: Seq<char>,
    j0: int,
    a: Seq<char>,
    j1: int,
)
    requires
        t.refresh_token is Some,
        0 <= j0 <= j1 <= s.len(),
        has_string_region(s.skip(j0), t.refresh_token.unwrap()@, "}"@),
        s.subrange(j0, j1) == json_string_rep(a),
    ensures
        a == t.refresh_token.unwrap()@,
        j1 + "}"@.len() <= s.len(),
        s.subrange(j1, j1 + "}"@.len()) == "}"@,
        s.len() == j1 + "}"@.len(),
{
    reveal_strlit("}");
    assert(s.skip(j0) =~= json_string_rep(a) + s.skip(j1));
    lemma_string_rep_cancel(a, t.refresh_token.unwrap()@, s.skip(j1), "}"@);
    assert(s.skip(j1) =~= "}"@ + Seq::<char>::empty());
    lemma_prefix_at(s, j1, "}"@, Seq::<char>::empty());
}

/// Reads a record back from its cache document, as
/// [`CachedToken::serialize`] writes it: every record's document parses
/// back, anything else is `Corrupt`, and on success the text is exactly
/// the returned record's document.
#[verifier::rlimit(100)]
pub fn parse_cached_token(s: &str) -> (r: Result<CachedToken, CacheError>)
    ensures
        r matches Ok(t) ==> s@ == cached_token_json(t),
        r is Err ==> r == Err::<CachedToken, CacheError>(CacheError::Corrupt),
        is_cached_token_doc(s@) ==> r is Ok,
{
    let n = s.unicode_len();
    proof {
        if is_cached_token_doc(s@) {
            let t = choose|t: CachedToken| s@ == cached_token_json(t);
            lemma_doc_start(t, s@);
        }
    }
    let i1 = match match_lit(s, 0, "{\"access_token\":\"") {
        Some(j) => j,
        None => {
            proof {
                if is_cached_token_doc(s@) {
                    assert(false);
                }
            }
            return Err(CacheError::Corrupt);
        },
    };
    let (access, i2) = match parse_string(s, i1) {
        Some(p) => p,
        None => {
            proof {
                if is_cached_token_doc(s@) {
                    assert(false);
                }
            }
            return Err(CacheError::Corrupt);
        },
    };
    proof {
        if is_cached_token_doc(s@) {
            let t = choose|t: CachedToken| s@ == cached_token_json(t);
            lemma_doc_after_access(t, s@, i1 as int, access@, i2 as int);
        }
    }
    let i3 = match match_lit(s, i2, ",\"expires_at\":") {
        Some(j) => j,
        None => {
            proof {
                if is_cached_token_doc(s@) {
                    assert(false);
                }
            }
            return Err(CacheError::Corrupt);
        },
    };
    let (expires_at, i4) = match parse_u64(s, i3) {
        Some(p) => p,
        None => {
            proof {
                if is_cached_token_doc(s@) {
                    assert(false);
                }
            }
            return Err(CacheError::Corrupt);
        },
    };
    proof {
        if is_cached_token_doc(s@) {
            let t = choose|t: CachedToken| s@ == cached_token_json(t);
            lemma_doc_after_expires(t, s@, i3 as int, expires_at, i4 as int);
        }
    }
    let i5 = match match_lit(s, i4, ",\"refresh_token\":") {
        Some(j) => j,
        None => {
            proof {
                if is_cached_token_doc(s@) {
                    assert(false);
                }
            }
            return Err(CacheError::Corrupt);
        },
    };
    proof {
        if is_cached_token_doc(s@) {
            let t = choose|t: CachedToken| s@ == cached_token_json(t);
            if t.refresh_token is None {
                lemma_doc_refresh_null(t, s@, i5 as int);
            } else {
                lemma_doc_refresh_some(t, s@, i5 as int);
            }
        }
    }
    let (refresh_token, i6) = match match_lit(s, i5, "null") {
        Some(j) => {
            proof {
                if is_cached_token_doc(s@) {
                    let t = choose|t: CachedToken| s@ == cached_token_json(t);
                    if t.refresh_token is Some {
                        assert(false);
                    }
                }
            }
            (None, j)
        },
        None => {
            let j0 = match match_lit(s, i5, "\"") {
                Some(j) => j,
                None => {
                    proof {
                        if is_cached_token_doc(s@) {
                            assert(false);
                        }
                    }
                    return Err(CacheError::Corrupt);
                },
            };
            match parse_string(s, j0) {
                Some((rt, j1)) => {
                    proof {
                        if is_cached_token_doc(s@) {
                            let t = choose|t: CachedToken| s@ == cached_token_json(t);
                            lemma_doc_after_refresh_string(t, s@, j0 as int, rt@, j1 as int);
                        }
                    }
                    (Some(rt), j1)
                },
                None => {
                    proof {
                        if is_cached_token_doc(s@) {
                            assert(false);
                        }
                    }
                    return Err(CacheError::Corrupt);
                },
            }
        },
    };
    let i7 = match match_lit(s, i6, "}") {
        Some(j) => j,
        None => {
            proof {
                if is_cached_token_doc(s@) {
                    assert(false);
                }
            }
            return Err(CacheError::Corrupt);
        },
    };
    if i7 != n {
        proof {
            if is_cached_token_doc(s@) {
                assert(false);
            }
        }
        return Err(CacheError::Corrupt);
    }
    let t = CachedToken { access_token: access, expires_at, refresh_token };
    proof {
        assert(s@.subrange(i5 as int, i6 as int) =~= refresh_token_rep(t.refresh_token));
        assert(s@ =~= s@.subrange(0, i1 as int) + s@.subrange(i1 as int, i2 as int) + s@.subrange(
            i2 as int,
            i3 as int,
        ) + s@.subrange(i3 as int, i4 as int) + s@.subrange(i4 as int, i5 as int) + s@.subrange(
            i5 as int,
            i6 as int,
        ) + s@.subrange(i6 as int, i7 as int));
        assert(s@ =~= cached_token_json(t));
    }
    Ok(t)
}

impl CachedToken {
    /// Writes the record as its one cache document, exactly
    /// [`cached_token_json`].
    pub fn serialize(&self) -> (r: String)
        ensures
            r@ == cached_token_json(*self),
    {
        let mut out = String::new();
        out.append("{\"access_token\":\"");
        append_escaped(&mut out, self.access_token.as_str());
        out.append("\"");
        out.append(",\"expires_at\":");
        append_u64(&mut out, self.expires_at);
        out.append(",\"refresh_token\":");
        match &self.refresh_token {
            Some(rt) => {
                out.append("\"");
                append_escaped(&mut out, rt.as_str());
                out.append("\"");
            },
            None => {
                out.append("null");
            },
        }
        out.append("}");
        proof {
            assert(out@ =~= cached_token_json(*self));
        }
        out
    }
}

} // verus!
