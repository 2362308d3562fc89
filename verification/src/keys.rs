//! Parsing of the credential-helper output: the keypair the binary prints,
//! one labelled key per line.

use vstd::prelude::*;

use crate::text::{
    find_char_from, match_at, spec_find_char_from, spec_match_at, spec_split_lines, spec_trim,
    split_lines, trim_str,
};

verus! {

/// A generated keypair, as printed by the binary.
#[derive(Debug, Clone)]
pub struct RealityKeysResponse {
    pub private_key: String,
    pub public_key: String,
}

/// What stands after the first colon of `t`, up to a second colon or the
/// end; empty when `t` has no colon.
pub open spec fn spec_after_first_colon(t: Seq<char>) -> Seq<char> {
    match spec_find_char_from(t, 0, ':') {
        None => Seq::<char>::empty(),
        Some(p) => match spec_find_char_from(t, p + 1, ':') {
            None => t.skip(p + 1),
            Some(q) => t.subrange(p + 1, q),
        },
    }
}

/// The key a labelled line carries: the text after its label's colon,
/// trimmed.
pub open spec fn spec_key_of(t: Seq<char>) -> Seq<char> {
    spec_trim(spec_after_first_colon(t))
}

/// How one line changes the pair scanned so far: a private-key label sets
/// the first half, a password or public-key label the second, any other
/// line neither.
pub open spec fn spec_keys_line(st: (Seq<char>, Seq<char>), l: Seq<char>) -> (Seq<char>, Seq<
    char,
>) {
    let t = spec_trim(l);
    if spec_match_at(t, "PrivateKey:"@, 0) || spec_match_at(t, "Private key:"@, 0) {
        (spec_key_of(t), st.1)
    } else if spec_match_at(t, "Password:"@, 0) || spec_match_at(t, "Public key:"@, 0) {
        (st.0, spec_key_of(t))
    } else {
        st
    }
}

/// The pair scanned over all lines, both halves starting empty.
pub open spec fn spec_keys_scan(lines: Seq<Seq<char>>) -> (Seq<char>, Seq<char>)
    decreases lines.len(),
{
    if lines.len() == 0 {
        (Seq::<char>::empty(), Seq::<char>::empty())
    } else {
        spec_keys_line(spec_keys_scan(lines.drop_last()), lines.last())
    }
}

/// The keypair in the helper's output; absent when either half is missing.
pub open spec fn spec_reality_keys(s: Seq<char>) -> Option<(Seq<char>, Seq<char>)> {
    let st = spec_keys_scan(spec_split_lines(s));
    if st.0.len() == 0 || st.1.len() == 0 {
        None
    } else {
        Some(st)
    }
}

/// The trimmed text after the first colon of an already-trimmed line.
fn key_after_colon(t: &str) -> (r: String)
    ensures
        r@ == spec_key_of(t@),
{
    let n = t.unicode_len();
    match find_char_from(t, 0, ':') {
        None => {
            proof {
                assert(spec_trim(Seq::<char>::empty()) =~= Seq::<char>::empty());
            }
            String::new()
        },
        Some(p) => {
            let part = match find_char_from(t, p + 1, ':') {
                None => t.substring_char(p + 1, n),
                Some(q) => t.substring_char(p + 1, q),
            };
            proof {
                match spec_find_char_from(t@, p as int + 1, ':') {
                    None => {
                        assert(t@.skip(p + 1) =~= t@.subrange(p as int + 1, n as int));
                    },
                    Some(q) => {},
                }
            }
            trim_str(part).to_owned()
        },
    }
}

/// Reads the keypair out of the helper's output, as `spec_reality_keys`
/// says.
pub fn parse_reality_keys(stdout: &str) -> (r: Option<RealityKeysResponse>)
    ensures
        match r {
            Some(keys) => spec_reality_keys(stdout@) == Some((keys.private_key@, keys.public_key@)),
            None => spec_reality_keys(stdout@) is None,
        },
{
    let lines = split_lines(stdout);
    let ghost lv = lines.deep_view();
    let mut private_key = String::new();
    let mut public_key = String::new();
    let mut i: usize = 0;
    proof {
        assert(lv.take(0) =~= Seq::<Seq<char>>::empty());
    }
    while i < lines.len()
        invariant
            lv == lines.deep_view(),
            lv == spec_split_lines(stdout@),
            lines@.len() == lv.len(),
            0 <= i <= lines@.len(),
            (private_key@, public_key@) == spec_keys_scan(lv.take(i as int)),
        decreases lines@.len() - i,
    {
        proof {
            assert(lv[i as int] == lines@[i as int]@);
            assert(lv.take(i as int + 1).drop_last() =~= lv.take(i as int));
            assert(lv.take(i as int + 1).last() == lv[i as int]);
        }
        let trimmed = trim_str(lines[i].as_str());
        if match_at(trimmed, "PrivateKey:", 0) || match_at(trimmed, "Private key:", 0) {
            private_key = key_after_colon(trimmed);
        } else if match_at(trimmed, "Password:", 0) || match_at(trimmed, "Public key:", 0) {
            public_key = key_after_colon(trimmed);
        }
        i += 1;
    }
    proof {
        assert(lv.take(lv.len() as int) =~= lv);
    }
    if private_key.as_str().is_empty() || public_key.as_str().is_empty() {
        None
    } else {
        Some(RealityKeysResponse { private_key, public_key })
    }
}

} // verus!
