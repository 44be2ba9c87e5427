//! Building an outbound url-encoded body: `key=value` pairs joined by `&`,
//! both sides written with the URL escape table.
use vstd::prelude::*;

use crate::decode_from_url_string::encode_to_url_string_and_copy;
use crate::decode_from_url_string::encoded_str;
use crate::strutil;

verus! {

/// An outbound `application/x-www-form-urlencoded` body.
pub struct UrlEncodedBody {
    pub data: String,
}

impl UrlEncodedBody {
    pub fn new() -> (r: Self)
        ensures
            r.data@ == Seq::<char>::empty(),
    {
        UrlEncodedBody { data: String::new() }
    }

    /// Appends one encoded `key=value` pair, after an `&` when the body
    /// already holds one.
    pub fn append(self, key: &str, value: &str) -> (r: Self)
        ensures
            r.data@ == self.data@ + (if self.data@.len() > 0 {
                seq!['&']
            } else {
                Seq::<char>::empty()
            }) + encoded_str(key@, 0) + seq!['='] + encoded_str(value@, 0),
    {
        let mut data = self.data;
        let ghost od = data@;
        if data.as_str().unicode_len() > 0 {
            strutil::append_char(&mut data, '&');
            proof {
                assert(data@ =~= od + seq!['&']);
            }
        } else {
            proof {
                assert(data@ =~= od + Seq::<char>::empty());
            }
        }

        encode_to_url_string_and_copy(&mut data, key);
        strutil::append_char(&mut data, '=');
        encode_to_url_string_and_copy(&mut data, value);
        proof {
            assert(data@ =~= od + (if od.len() > 0 {
                seq!['&']
            } else {
                Seq::<char>::empty()
            }) + encoded_str(key@, 0) + seq!['='] + encoded_str(value@, 0));
        }
        Self { data }
    }
}

} // verus!
