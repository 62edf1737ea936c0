//! Small string routines shared by the whole engine: equality of string
//! slices, and the server name of an identifier.

use vstd::prelude::*;
use vstd::string::*;
use vstd::utf8::*;

verus! {

/// Two character sequences with the same UTF-8 encoding are the same sequence.
pub proof fn lemma_encoding_is_injective(a: Seq<char>, b: Seq<char>)
    requires
        encode_utf8(a) == encode_utf8(b),
    ensures
        a == b,
{
    encode_utf8_decode_utf8(a);
    encode_utf8_decode_utf8(b);
}

/// Whether two string slices hold the same text.
pub fn str_eq(a: &str, b: &str) -> (same: bool)
    ensures
        same == (a@ == b@),
{
    let x = a.as_bytes();
    let y = b.as_bytes();
    if x.len() != y.len() {
        return false;
    }
    let mut i: usize = 0;
    while i < x.len()
        invariant
            i <= x.len(),
            x.len() == y.len(),
            x@ == a.spec_bytes(),
            y@ == b.spec_bytes(),
            forall|k: int| 0 <= k < i ==> x@[k] == y@[k],
        decreases x.len() - i,
    {
        if x[i] != y[i] {
            return false;
        }
        i += 1;
    }
    proof {
        assert(x@ =~= y@);
        lemma_encoding_is_injective(a@, b@);
    }
    true
}

/// `i` is the position of the first colon of `s`.
pub open spec fn is_first_colon(s: Seq<char>, i: int) -> bool {
    &&& 0 <= i < s.len()
    &&& s[i] == ':'
    &&& forall|k: int| 0 <= k < i ==> s[k] != ':'
}

/// The server an identifier belongs to: everything after its first colon.
/// An identifier without a colon names no server.
pub open spec fn server_part(id: Seq<char>) -> Option<Seq<char>> {
    if exists|i: int| is_first_colon(id, i) {
        Some(id.skip((choose|i: int| is_first_colon(id, i)) + 1))
    } else {
        None
    }
}

/// A sequence has at most one first colon.
pub proof fn lemma_first_colon_is_unique(s: Seq<char>, i: int, j: int)
    requires
        is_first_colon(s, i),
        is_first_colon(s, j),
    ensures
        i == j,
{
    if i < j {
        assert(s[i] != ':');
    } else if j < i {
        assert(s[j] != ':');
    }
}

/// What `server_part` is, once the first colon has been found.
pub proof fn lemma_server_part_at(s: Seq<char>, i: int)
    requires
        is_first_colon(s, i),
    ensures
        server_part(s) == Some(s.skip(i + 1)),
{
    let j = choose|j: int| is_first_colon(s, j);
    lemma_first_colon_is_unique(s, i, j);
}

/// What `server_part` is when no colon occurs.
pub proof fn lemma_server_part_none(s: Seq<char>)
    requires
        forall|k: int| 0 <= k < s.len() ==> s[k] != ':',
    ensures
        server_part(s) is None,
{
    if exists|i: int| is_first_colon(s, i) {
        let i = choose|i: int| is_first_colon(s, i);
        assert(s[i] != ':');
    }
}

/// The server name of an identifier such as `@user:example.org` or
/// `#alias:example.org`: the text after the first colon.
pub fn server_name(id: &str) -> (server: Option<&str>)
    ensures
        server.is_some() == server_part(id@).is_some(),
        server matches Some(s) ==> Some(s@) == server_part(id@),
{
    if id.is_ascii() {
        let n = id.as_bytes().len();
        proof {
            is_ascii_spec_bytes(id);
            assert(id.spec_bytes().len() == id@.len());
        }
        let mut i: usize = 0;
        while i < n
            invariant
                i <= n,
                n == id@.len(),
                id.is_ascii(),
                forall|k: int| 0 <= k < i ==> id@[k] != ':',
            decreases n - i,
        {
            if id.get_ascii(i) == 58u8 {
                proof {
                    assert(id@[i as int] == ':');
                    lemma_server_part_at(id@, i as int);
                    assert(id@.skip(i as int + 1) =~= id@.subrange(i as int + 1, n as int));
                }
                return Some(id.substring_ascii(i + 1, n));
            }
            i += 1;
        }
        proof {
            lemma_server_part_none(id@);
        }
        None
    } else {
        let n = id.unicode_len();
        let mut i: usize = 0;
        while i < n
            invariant
                i <= n,
                n == id@.len(),
                forall|k: int| 0 <= k < i ==> id@[k] != ':',
            decreases n - i,
        {
            if id.get_char(i) == ':' {
                proof {
                    lemma_server_part_at(id@, i as int);
                    assert(id@.skip(i as int + 1) =~= id@.subrange(i as int + 1, n as int));
                }
                return Some(id.substring_char(i + 1, n));
            }
            i += 1;
        }
        proof {
            lemma_server_part_none(id@);
        }
        None
    }
}

/// Whether two identifiers name the same server. Identifiers without a
/// server part never match.
pub open spec fn same_server(a: Seq<char>, b: Seq<char>) -> bool {
    server_part(a) is Some && server_part(a) == server_part(b)
}

/// Whether `id` belongs to the server called `server`.
pub open spec fn belongs_to(id: Seq<char>, server: Seq<char>) -> bool {
    server_part(id) == Some(server)
}

/// Executable form of [`same_server`].
pub fn on_same_server(a: &str, b: &str) -> (same: bool)
    ensures
        same == same_server(a@, b@),
{
    match (server_name(a), server_name(b)) {
        (Some(x), Some(y)) => str_eq(x, y),
        _ => false,
    }
}

/// Executable form of [`belongs_to`].
pub fn is_on_server(id: &str, server: &str) -> (local: bool)
    ensures
        local == belongs_to(id@, server@),
{
    match server_name(id) {
        Some(x) => str_eq(x, server),
        None => false,
    }
}

/// The lowercase form of a text, by the lowercase mapping of Unicode.
pub uninterp spec fn lowercase_of(text: Seq<char>) -> Seq<char>;

/// Calls `str::to_lowercase`, which maps a text to its lowercase form by
/// Unicode's rules: a function of the text alone.
#[verifier::external_body]
pub(crate) fn to_lowercase(text: &str) -> (lower: String)
    ensures
        lower@ == lowercase_of(text@),
{
    text.to_lowercase()
}

} // verus!
