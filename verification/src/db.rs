//! The store's text-level logic: splitting the bootstrap script into
//! statements, and the idempotent column additions.

use vstd::prelude::*;

use crate::text::{find_char_from, spec_find_char_from, spec_trim, trim_str};

verus! {

/// The statements of a script: the `;`-separated pieces, trimmed, with
/// empty pieces dropped.
pub open spec fn spec_sql_statements(s: Seq<char>) -> Seq<Seq<char>>
    decreases s.len(),
    via spec_sql_statements_decreases
{
    if s.len() == 0 {
        Seq::<Seq<char>>::empty()
    } else if spec_find_char_from(s, 0, ';') is Some {
        let i = spec_find_char_from(s, 0, ';')->Some_0;
        let head = spec_trim(s.take(i));
        (if head.len() == 0 {
            Seq::<Seq<char>>::empty()
        } else {
            seq![head]
        }) + spec_sql_statements(s.skip(i + 1))
    } else {
        let head = spec_trim(s);
        if head.len() == 0 {
            Seq::<Seq<char>>::empty()
        } else {
            seq![head]
        }
    }
}

#[via_fn]
proof fn spec_sql_statements_decreases(s: Seq<char>) {
    crate::text::lemma_find_char_from_props(s, 0, ';');
}

/// Splits a script into its statements, as `spec_sql_statements` says.
pub fn split_sql_statements(script: &str) -> (r: Vec<String>)
    ensures
        r.deep_view() == spec_sql_statements(script@),
{
    let n = script.unicode_len();
    let mut r: Vec<String> = Vec::new();
    let mut pos: usize = 0;
    proof {
        assert(script@.skip(0) =~= script@);
    }
    while pos < n
        invariant
            n == script@.len(),
            0 <= pos <= n,
            spec_sql_statements(script@) == r.deep_view() + spec_sql_statements(
                script@.skip(pos as int),
            ),
        decreases n - pos,
    {
        let ghost rest = script@.skip(pos as int);
        let ghost old_r = r.deep_view();
        proof {
            crate::text::lemma_find_char_skip(script@, pos as int, 0, ';');
            crate::text::lemma_find_char_from_props(rest, 0, ';');
        }
        match find_char_from(script, pos, ';') {
            Some(j) => {
                let piece = trim_str(script.substring_char(pos, j));
                proof {
                    let k = j - pos;
                    assert(spec_find_char_from(rest, 0, ';') == Some(k as int));
                    assert(rest.take(k as int) =~= script@.subrange(pos as int, j as int));
                    assert(rest.skip(k + 1) =~= script@.skip(j + 1));
                }
                if !piece.is_empty() {
                    r.push(piece.to_owned());
                    proof {
                        assert(r.deep_view() =~= old_r.push(piece@));
                    }
                }
                pos = j + 1;
            },
            None => {
                let piece = trim_str(script.substring_char(pos, n));
                proof {
                    assert(rest =~= script@.subrange(pos as int, n as int));
                }
                if !piece.is_empty() {
                    r.push(piece.to_owned());
                    proof {
                        assert(r.deep_view() =~= old_r.push(piece@));
                    }
                }
                proof {
                    assert(script@.skip(n as int).len() == 0);
                    assert(r.deep_view() + spec_sql_statements(script@.skip(n as int))
                        =~= r.deep_view());
                }
                pos = n;
            },
        }
    }
    proof {
        assert(script@.skip(pos as int).len() == 0);
        assert(r.deep_view() + spec_sql_statements(script@.skip(pos as int)) =~= r.deep_view());
    }
    r
}

/// The columns added idempotently to the inbound table at startup.
pub fn migration_columns() -> (r: Vec<String>)
    ensures
        r.deep_view() =~= seq!["tag"@, "listen"@, "allocate"@],
{
    let mut v: Vec<String> = Vec::new();
    v.push(String::from_str("tag"));
    v.push(String::from_str("listen"));
    v.push(String::from_str("allocate"));
    v
}

/// The idempotent column-addition statement for one column.
pub fn add_column_statement(col: &str) -> (r: String)
    ensures
        r@ == "ALTER TABLE inbounds ADD COLUMN "@ + col@ + " TEXT"@,
{
    let mut s = String::from_str("ALTER TABLE inbounds ADD COLUMN ");
    s.append(col);
    s.append(" TEXT");
    s
}

} // verus!
