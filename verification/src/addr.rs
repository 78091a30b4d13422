//! Listening addresses of the shape `<proto>://<addr>`: exactly one `://`
//! separator, and a protocol the runtime can serve on.
use vstd::prelude::*;

use crate::text::str_eq;

verus! {

/// The transports a listening address can name.
#[derive(Clone, Copy, Debug, PartialEq, Eq, Structural)]
pub enum Proto {
    Unix,
    Tcp,
}

/// The separator `://` starts at position `i`.
pub open spec fn sep_at(s: Seq<char>, i: int) -> bool {
    &&& 0 <= i
    &&& i + 3 <= s.len()
    &&& s[i] == ':'
    &&& s[i + 1] == '/'
    &&& s[i + 2] == '/'
}

/// The separator starts at `i` and nowhere else.
pub open spec fn sep_only_at(s: Seq<char>, i: int) -> bool {
    &&& sep_at(s, i)
    &&& forall|j: int| j != i ==> !sep_at(s, j)
}

/// The first separator at or after `from`.
fn find_sep_from(s: &str, from: usize) -> (r: Option<usize>)
    requires
        from <= s@.len(),
    ensures
        match r {
            Some(i) => from <= i && sep_at(s@, i as int) && forall|j: int|
                from <= j < i ==> !sep_at(s@, j),
            None => forall|j: int| from <= j ==> !sep_at(s@, j),
        },
{
    let n = s.unicode_len();
    let mut i: usize = from;
    while i < n && n - i >= 3
        invariant
            n == s@.len(),
            from <= i <= n,
            forall|j: int| from <= j < i ==> !sep_at(s@, j),
        decreases n - i,
    {
        if s.get_char(i) == ':' && s.get_char(i + 1) == '/' && s.get_char(i + 2) == '/' {
            return Some(i);
        }
        i = i + 1;
    }
    None
}

/// Split an address into its protocol and the part the transport listens
/// on; refused unless the separator occurs exactly once and the protocol
/// is `unix` or `tcp`.
pub fn parse_listen_addr(s: &str) -> (r: Result<(Proto, String), ()>)
    ensures
        match r {
            Ok(pa) => exists|i: int|
                {
                    &&& #[trigger] sep_only_at(s@, i)
                    &&& pa.1@ == s@.skip(i + 3)
                    &&& (pa.0 == Proto::Unix <==> s@.subrange(0, i) == "unix"@)
                    &&& (pa.0 == Proto::Tcp <==> s@.subrange(0, i) == "tcp"@)
                    &&& (s@.subrange(0, i) == "unix"@ || s@.subrange(0, i) == "tcp"@)
                },
            Err(_) => forall|i: int| #[trigger] sep_only_at(s@, i) ==> s@.subrange(0, i)
                != "unix"@ && s@.subrange(0, i) != "tcp"@,
        },
{
    proof {
        reveal_strlit("unix");
        reveal_strlit("tcp");
        assert("unix"@.len() == 4);
        assert("tcp"@.len() == 3);
    }
    let n = s.unicode_len();
    let first = match find_sep_from(s, 0) {
        Some(i) => i,
        None => {
            return Err(());
        },
    };
    match find_sep_from(s, first + 1) {
        Some(second) => {
            proof {
                assert forall|i: int| !sep_only_at(s@, i) by {
                    if sep_at(s@, i) {
                        if i != first as int {
                            assert(sep_at(s@, first as int));
                        } else {
                            assert(sep_at(s@, second as int));
                        }
                    }
                }
            }
            return Err(());
        },
        None => {},
    }
    proof {
        assert(sep_only_at(s@, first as int));
    }
    let prefix = s.substring_char(0, first);
    let rest = s.substring_char(first + 3, n);
    if str_eq(prefix, "unix") {
        Ok((Proto::Unix, rest.to_owned()))
    } else if str_eq(prefix, "tcp") {
        Ok((Proto::Tcp, rest.to_owned()))
    } else {
        proof {
            assert forall|i: int| #[trigger] sep_only_at(s@, i) implies s@.subrange(0, i)
                != "unix"@ && s@.subrange(0, i) != "tcp"@ by {
                assert(sep_at(s@, first as int));
                assert(i == first as int);
            }
        }
        Err(())
    }
}

} // verus!
