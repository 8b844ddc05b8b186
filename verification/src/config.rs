//! Client configuration as plain values.
//!
//! The caller reads its environment or configuration files outside the
//! library and hands the values over; only the scope-list parsing is logic
//! of this crate.

use vstd::prelude::*;

verus! {

/// Everything the provider endpoints and flows can be configured with.
/// Absent entries stay `None`; each flow checks for what it needs.
pub struct ClientConfiguration {
    pub client_id: Option<String>,
    pub client_secret: Option<String>,
    pub auth_url: Option<String>,
    pub token_url: Option<String>,
    pub device_authorization_url: Option<String>,
    pub token_cache_path: Option<String>,
    pub jwks_url: Option<String>,
    pub realm: Option<String>,
    pub scopes: Vec<String>,
    pub username: Option<String>,
    pub password: Option<String>,
}

/// The scope list denoted by a comma-separated configuration string:
/// the segments between commas, in order, empty segments kept.
pub open spec fn split_commas(s: Seq<char>) -> Seq<Seq<char>>
    decreases s.len(),
{
    if s.len() == 0 {
        seq![Seq::<char>::empty()]
    } else {
        let rest = split_commas(s.drop_first());
        if s[0] == ',' {
            seq![Seq::<char>::empty()] + rest
        } else {
            seq![seq![s[0]] + rest[0]] + rest.drop_first()
        }
    }
}

pub proof fn lemma_split_commas_nonempty(s: Seq<char>)
    ensures
        split_commas(s).len() >= 1,
    decreases s.len(),
{
    if s.len() > 0 {
        lemma_split_commas_nonempty(s.drop_first());
    }
}

/// Splits a scope string on commas, as [`split_commas`] describes.
pub fn scopes_from_string(s: &str) -> (r: Vec<String>)
    ensures
        r.deep_view() == split_commas(s@),
{
    let r = split_commas_from(s, 0);
    assert(s@.skip(0) =~= s@);
    r
}

fn split_commas_from(s: &str, i: usize) -> (r: Vec<String>)
    requires
        i <= s@.len(),
    ensures
        r.deep_view() == split_commas(s@.skip(i as int)),
    decreases s@.len() - i,
{
    let n = s.unicode_len();
    if i == n {
        assert(s@.skip(i as int) =~= Seq::<char>::empty());
        let r = vec![String::new()];
        assert(r.deep_view() =~= split_commas(s@.skip(i as int)));
        r
    } else {
        let c = s.get_char(i);
        let mut rest = split_commas_from(s, i + 1);
        proof {
            lemma_split_commas_nonempty(s@.skip(i as int + 1));
            assert(s@.skip(i as int).drop_first() =~= s@.skip(i as int + 1));
        }
        if c == ',' {
            rest.insert(0, String::new());
            assert(rest.deep_view() =~= split_commas(s@.skip(i as int)));
            rest
        } else {
            let first = rest.remove(0);
            let mut head = s.substring_char(i, i + 1).to_owned();
            head.append(first.as_str());
            assert(head@ =~= seq![s@.skip(i as int)[0]] + split_commas(s@.skip(i as int + 1))[0]);
            rest.insert(0, head);
            assert(rest.deep_view() =~= split_commas(s@.skip(i as int)));
            rest
        }
    }
}

} // verus!
