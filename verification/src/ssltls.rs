//! Choosing the TLS certificate for a client by the name it asks for (SNI):
//! exact names, and `*` as the first label of a wildcard name.
use vstd::prelude::*;
use crate::text::{chars_of, split_char, split_chars, chars_eq};

verus! {

/// The label `*`.
pub open spec fn star() -> Seq<char> {
    seq!['*']
}

/// Whether the certificate name `name` serves the SNI name `sni`: both have as
/// many dot-separated labels, and either all labels are equal, or the first
/// label of `name` is `*` and all the others are equal.
pub open spec fn sni_name_matches(name: Seq<char>, sni: Seq<char>) -> bool {
    let n = split_char(name, '.');
    let s = split_char(sni, '.');
    n.len() == s.len() && ((n[0] == star() && n.skip(1) == s.skip(1)) || n == s)
}

/// Equality of two label lists from `from` on.
fn labels_eq_from(a: &Vec<Vec<char>>, b: &Vec<Vec<char>>, from: usize) -> (res: bool)
    requires
        a@.len() == b@.len(),
        from <= a@.len(),
    ensures
        res == (forall|k: int| from <= k < a@.len() ==> (#[trigger] a@[k])@ == b@[k]@),
{
    let mut i: usize = from;
    while i < a.len()
        invariant
            a@.len() == b@.len(),
            from <= i <= a@.len(),
            forall|k: int| from <= k < i ==> (#[trigger] a@[k])@ == b@[k]@,
        decreases a.len() - i,
    {
        if !chars_eq(a[i].as_slice(), b[i].as_slice()) {
            return false;
        }
        i = i + 1;
    }
    true
}

/// Whether a certificate name serves an SNI name.
pub fn sni_matches(name: &str, sni: &str) -> (res: bool)
    ensures
        res == sni_name_matches(name@, sni@),
{
    let n = split_chars(chars_of(name).as_slice(), '.');
    let s = split_chars(chars_of(sni).as_slice(), '.');
    let ghost nv = split_char(name@, '.');
    let ghost sv = split_char(sni@, '.');
    if n.len() != s.len() {
        return false;
    }
    let rest_equal = labels_eq_from(&n, &s, 1);
    let first_equal = chars_eq(n[0].as_slice(), s[0].as_slice());
    let first_star = n[0].len() == 1 && n[0][0] == '*';
    proof {
        assert(first_star == (nv[0] == star())) by {
            if first_star {
                assert(nv[0] =~= star());
            }
        }
        assert(rest_equal == (nv.skip(1) == sv.skip(1))) by {
            if rest_equal {
                assert forall|k: int| 0 <= k < nv.skip(1).len() implies nv.skip(1)[k] == sv.skip(1)[k] by {
                    assert(n@[k + 1]@ == nv[k + 1]);
                    assert(s@[k + 1]@ == sv[k + 1]);
                }
                assert(nv.skip(1) =~= sv.skip(1));
            } else {
                let k = choose|k: int| 1 <= k < n@.len() && (#[trigger] n@[k])@ != s@[k]@;
                assert(nv.skip(1)[k - 1] != sv.skip(1)[k - 1]);
            }
        }
        assert((first_equal && rest_equal) == (nv == sv)) by {
            if first_equal && rest_equal {
                assert forall|k: int| 0 <= k < nv.len() implies nv[k] == sv[k] by {
                    if k > 0 {
                        assert(nv.skip(1)[k - 1] == sv.skip(1)[k - 1]);
                    }
                }
                assert(nv =~= sv);
            }
            if nv == sv {
                assert(nv.skip(1) =~= sv.skip(1));
            }
        }
    }
    (first_star && rest_equal) || (first_equal && rest_equal)
}

/// The index of the first name (in the given order) that serves `sni`.
pub open spec fn first_serving(names: Seq<String>, sni: Seq<char>, from: int) -> Option<usize>
    decreases names.len() - from,
{
    if from < 0 || from >= names.len() {
        None
    } else if sni_name_matches(names[from]@, sni) {
        Some(from as usize)
    } else {
        first_serving(names, sni, from + 1)
    }
}

/// Among certificate names in the given order, the first that serves `sni`.
pub fn select_cert(names: &[String], sni: &str) -> (res: Option<usize>)
    ensures
        res == first_serving(names@, sni@, 0),
{
    let mut i: usize = 0;
    while i < names.len()
        invariant
            i <= names.len(),
            first_serving(names@, sni@, 0) == first_serving(names@, sni@, i as int),
        decreases names.len() - i,
    {
        if sni_matches(names[i].as_str(), sni) {
            return Some(i);
        }
        i = i + 1;
    }
    None
}

/// The certificate a TLS client gets.
#[derive(PartialEq, Eq, Structural, Clone, Copy, Debug)]
pub enum CertChoice {
    /// The certificate stored under the name at this index.
    Named(usize),
    /// The default certificate.
    Default,
    /// None: the handshake fails.
    Nothing,
}

/// The certificate for a client that asked for `sni` (if it asked): the first
/// name that serves it, else the default certificate when there is one.
pub open spec fn cert_choice(sni: Option<Seq<char>>, names: Seq<String>, has_default: bool) -> CertChoice {
    match sni {
        Some(s) => match first_serving(names, s, 0) {
            Some(i) => CertChoice::Named(i),
            None => if has_default { CertChoice::Default } else { CertChoice::Nothing },
        },
        None => if has_default { CertChoice::Default } else { CertChoice::Nothing },
    }
}

/// The certificate for a client.
pub fn resolve_cert(sni: Option<&str>, names: &[String], has_default: bool) -> (res: CertChoice)
    ensures
        res == cert_choice(match sni { Some(s) => Some(s@), None => None }, names@, has_default),
{
    if let Some(s) = sni {
        if let Some(i) = select_cert(names, s) {
            return CertChoice::Named(i);
        }
    }
    if has_default {
        CertChoice::Default
    } else {
        CertChoice::Nothing
    }
}

/// `first_serving` from `from` on: the index it gives serves `sni` and no
/// earlier one from `from` on does; `None` means no name from `from` on serves it.
proof fn lemma_first_serving(names: Seq<String>, sni: Seq<char>, from: int)
    requires
        0 <= from,
        names.len() <= usize::MAX,
    ensures
        match first_serving(names, sni, from) {
            Some(i) => from <= i < names.len() && sni_name_matches(names[i as int]@, sni)
                && forall|j: int| from <= j < i ==> !sni_name_matches(#[trigger] names[j]@, sni),
            None => forall|j: int| from <= j < names.len() ==> !sni_name_matches(#[trigger] names[j]@, sni),
        },
    decreases names.len() - from,
{
    if from < names.len() && !sni_name_matches(names[from]@, sni) {
        lemma_first_serving(names, sni, from + 1);
    }
}

/// A client whose name no configured certificate serves (or that sent no name
/// at all) gets the default certificate when there is one, and none otherwise.
/// A client gets a named certificate only when that name serves it and no
/// earlier name does.
pub proof fn lemma_cert_choice(sni: Option<Seq<char>>, names: Seq<String>, has_default: bool)
    requires
        names.len() <= usize::MAX,
    ensures
        (sni is None || forall|j: int| 0 <= j < names.len() ==> !sni_name_matches(#[trigger] names[j]@, sni.unwrap()))
            ==> cert_choice(sni, names, has_default) == (if has_default { CertChoice::Default } else { CertChoice::Nothing }),
        sni is None && has_default ==> cert_choice(sni, names, has_default) == CertChoice::Default,
        cert_choice(sni, names, has_default) matches CertChoice::Named(i) ==> sni is Some && i < names.len()
            && sni_name_matches(names[i as int]@, sni.unwrap())
            && forall|j: int| 0 <= j < i ==> !sni_name_matches(#[trigger] names[j]@, sni.unwrap()),
        (sni matches Some(s) && exists|j: int| 0 <= j < names.len() && sni_name_matches(#[trigger] names[j]@, s))
            ==> cert_choice(sni, names, has_default) is Named,
{
    if let Some(s) = sni {
        lemma_first_serving(names, s, 0);
    }
}

} // verus!
