//! The identity of a client, which it keeps from one run to the next.

use vstd::prelude::*;
use vstd::utf8::{encode_utf8, is_ascii_chars, is_ascii_chars_encode_utf8};
use crate::webui::valid_code;

verus! {

/// What a client keeps on disk.
#[derive(Debug)]
pub struct ClientCache {
    pub client_id: String,
}

/// Whether `c` is a hexadecimal digit, in lower case.
pub open spec fn is_lower_hex(c: char) -> bool {
    '0' <= c <= '9' || 'a' <= c <= 'f'
}

/// Whether a text of a random UUID has a hyphen at `i`.
pub open spec fn is_hyphen_place(i: int) -> bool {
    i == 8 || i == 13 || i == 18 || i == 23
}

/// Whether `s` is the text of a random UUID (version 4): 32 hexadecimal digits in five groups,
/// the third of which begins with the version and the fourth with the variant.
pub open spec fn is_random_uuid(s: Seq<char>) -> bool {
    &&& s.len() == 36
    &&& forall|i: int|
        0 <= i < 36 ==> if is_hyphen_place(i) {
            #[trigger] s[i] == '-'
        } else {
            is_lower_hex(s[i])
        }
    &&& s[14] == '4'
    &&& s[19] == '8' || s[19] == '9' || s[19] == 'a' || s[19] == 'b'
}

/// Calls `uuid::Uuid::new_v4` and writes the result with its `Display`: a random UUID of
/// version 4, hyphenated and in lower case. Which one is left to chance.
#[verifier::external_body]
fn random_uuid() -> (id: String)
    ensures
        is_random_uuid(id@),
{
    uuid::Uuid::new_v4().to_string()
}

impl ClientCache {
    /// The identity to go by, given what was found on disk and an identity that is new, and
    /// whether it is still to be written to disk.
    pub fn keep_or_take(stored: Option<ClientCache>, fresh: String) -> (r: (ClientCache, bool))
        ensures
            match stored {
                Some(cache) => r.0.client_id@ == cache.client_id@ && !r.1,
                None => r.0.client_id@ == fresh@ && r.1,
            },
    {
        match stored {
            Some(cache) => (cache, false),
            None => (ClientCache { client_id: fresh }, true),
        }
    }

    /// The identity found on disk or, where there is none, a new random one; and whether it is
    /// still to be written to disk.
    pub fn load_or_create(stored: Option<ClientCache>) -> (r: (ClientCache, bool))
        ensures
            match stored {
                Some(cache) => r.0.client_id@ == cache.client_id@ && !r.1,
                None => is_random_uuid(r.0.client_id@) && r.1,
            },
    {
        match stored {
            Some(cache) => (cache, false),
            None => {
                let fresh: String = random_uuid();
                ClientCache::keep_or_take(None, fresh)
            },
        }
    }
}

/// A new identity can be used as a connection code.
pub proof fn law_new_identity_is_connection_code(id: Seq<char>)
    requires
        is_random_uuid(id),
    ensures
        valid_code(id),
{
    assert forall|i: int| 0 <= i < id.len() implies 0 <= #[trigger] id[i] < 128 by {
        if is_hyphen_place(i) {
            assert(id[i] == '-');
        } else {
            assert(is_lower_hex(id[i]));
        }
    }
    assert(is_ascii_chars(id));
    is_ascii_chars_encode_utf8(id);
    assert(encode_utf8(id).len() == 36);
}

/// A new identity is 32 lower-case hexadecimal digits in five groups with hyphens between them, and
/// says of itself that it is a random one.
pub proof fn law_new_identity_form(id: Seq<char>, i: int)
    requires
        is_random_uuid(id),
    ensures
        id.len() == 36,
        id[8] == '-' && id[13] == '-' && id[18] == '-' && id[23] == '-',
        0 <= i < 36 && i != 8 && i != 13 && i != 18 && i != 23 ==> '0' <= id[i] <= '9' || 'a'
            <= id[i] <= 'f',
        id[14] == '4',
        id[19] == '8' || id[19] == '9' || id[19] == 'a' || id[19] == 'b',
{
    assert(is_hyphen_place(8) && is_hyphen_place(13) && is_hyphen_place(18) && is_hyphen_place(23));
    if 0 <= i < 36 && !is_hyphen_place(i) {
        assert(is_lower_hex(id[i]));
    }
}

} // verus!
