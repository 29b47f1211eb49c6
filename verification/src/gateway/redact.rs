//! Keeping the account token out of traced frames.
use vstd::prelude::*;

use crate::text::{concat3, find_from, occurs_at, owned};

verus! {

/// Where a token's value starts in a serialised frame: just after this.
pub const TOKEN_KEY: &'static str = "\"token\":\"";

/// `i` is the first place at or after `from` where `p` occurs in `s`.
pub open spec fn is_first_at(s: Seq<char>, p: Seq<char>, from: int, i: int) -> bool {
    from <= i && occurs_at(s, p, i) && forall|k: int| from <= k < i ==> !occurs_at(s, p, k)
}

pub proof fn lemma_first_is_unique(s: Seq<char>, p: Seq<char>, from: int, i: int, j: int)
    requires
        is_first_at(s, p, from, i),
        is_first_at(s, p, from, j),
    ensures
        i == j,
{
    if i < j {
        assert(!occurs_at(s, p, i));
    } else if j < i {
        assert(!occurs_at(s, p, j));
    }
}

/// The frame with its token's value replaced by `[redacted]`: everything
/// before the value and from its closing quote on is kept. A frame with no
/// token is kept whole; one whose value never closes is withheld, since
/// printing it could print the token.
pub open spec fn redacted(s: Seq<char>) -> Seq<char> {
    let key = TOKEN_KEY@;
    if exists|i: int| is_first_at(s, key, 0, i) {
        let i = choose|i: int| is_first_at(s, key, 0, i);
        let value_at = i + key.len();
        if exists|j: int| is_first_at(s, seq!['"'], value_at, j) {
            let j = choose|j: int| is_first_at(s, seq!['"'], value_at, j);
            s.take(value_at) + "[redacted]"@ + s.skip(j)
        } else {
            "[unparsable frame, withheld]"@
        }
    } else {
        s
    }
}

/// Blank out an account token in a frame about to be traced.
pub fn redact_token(payload: &str) -> (r: String)
    ensures
        r@ == redacted(payload@),
{
    let ghost key = TOKEN_KEY@;
    let n = payload.unicode_len();
    let start = match find_from(payload, TOKEN_KEY, 0) {
        Some(i) => i,
        None => {
            proof {
                assert(!exists|i: int| is_first_at(payload@, key, 0, i));
            }
            return owned(payload);
        },
    };
    proof {
        reveal_strlit("\"token\":\"");
        assert(is_first_at(payload@, key, 0, start as int));
        let c = choose|i: int| is_first_at(payload@, key, 0, i);
        lemma_first_is_unique(payload@, key, 0, start as int, c);
        assert(key.len() == 9);
        assert(start + 9 <= payload@.len());
    }
    let value_at = start + 9;
    let end = match find_from(payload, "\"", value_at) {
        Some(j) => j,
        None => {
            proof {
                reveal_strlit("\"");
                assert("\""@ =~= seq!['"']);
                assert(!exists|j: int| is_first_at(payload@, seq!['"'], value_at as int, j));
            }
            return owned("[unparsable frame, withheld]");
        },
    };
    proof {
        reveal_strlit("\"");
        assert("\""@ =~= seq!['"']);
        assert(is_first_at(payload@, seq!['"'], value_at as int, end as int));
        let c = choose|j: int| is_first_at(payload@, seq!['"'], value_at as int, j);
        lemma_first_is_unique(payload@, seq!['"'], value_at as int, end as int, c);
    }
    let before = payload.substring_char(0, value_at);
    let after = payload.substring_char(end, n);
    proof {
        assert(before@ =~= payload@.take(value_at as int));
        assert(after@ =~= payload@.skip(end as int));
    }
    concat3(before, "[redacted]", after)
}

} // verus!
