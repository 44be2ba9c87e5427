//! Building an outbound `multipart/form-data` body: one buffer, one part
//! appended per field or file, closed by the final boundary marker.
use vstd::prelude::*;

verus! {

use vstd::utf8::encode_utf8;

/// An ASCII letter or digit: what boundary tokens are drawn from.
pub open spec fn is_alnum_char(c: char) -> bool {
    ('0' <= c && c <= '9') || ('a' <= c && c <= 'z') || ('A' <= c && c <= 'Z')
}

/// Relies on rand's `Alphanumeric` distribution sampled through
/// `SampleString::sample_string`: whatever the generator yields, the result
/// holds exactly `len` ASCII alphanumeric characters.
#[verifier::external_body]
fn rand_string(len: usize) -> (r: String)
    ensures
        r@.len() == len,
        forall|i: int| 0 <= i < r@.len() ==> is_alnum_char(#[trigger] r@[i]),
{
    rand::distr::SampleString::sample_string(&rand::distr::Alphanumeric, &mut rand::rng(), len)
}

/// The text of one appended text-field part.
pub open spec fn text_part_chars(boundary: Seq<char>, name: Seq<char>, value: Seq<char>) -> Seq<
    char,
> {
    "--"@ + boundary + "\r\nContent-Disposition: form-data; name=\""@ + name + "\"\r\n\r\n"@ + value
        + "\r\n"@
}

/// The header text of one appended file part.
pub open spec fn file_part_header_chars(
    boundary: Seq<char>,
    name: Seq<char>,
    file_name: Seq<char>,
    content_type: Seq<char>,
) -> Seq<char> {
    "--"@ + boundary + "\r\nContent-Disposition: form-data; name=\""@ + name + "\"; filename=\""@
        + file_name + "\"\r\nContent-Type:"@ + content_type + "\r\n\r\n"@
}

/// An outbound multipart body: the boundary token and the parts appended so
/// far.
pub struct FormDataBody {
    boundary: String,
    buffer: Vec<u8>,
}

impl FormDataBody {
    /// The boundary token.
    pub closed spec fn boundary_spec(&self) -> Seq<char> {
        self.boundary@
    }

    /// The bytes of the parts appended so far.
    pub closed spec fn buffer_spec(&self) -> Seq<u8> {
        self.buffer@
    }

    /// Starts an empty body under a fresh random boundary.
    pub fn new() -> (r: Self)
        ensures
            r.buffer_spec() == Seq::<u8>::empty(),
            r.boundary_spec().len() == 38,
            r.boundary_spec().subrange(0, 22) == "------DataFormBoundary"@,
            forall|i: int| 22 <= i < 38 ==> is_alnum_char(#[trigger] r.boundary_spec()[i]),
    {
        proof {
            reveal_strlit("------DataFormBoundary");
        }
        let mut boundary = String::new();
        boundary.append("------DataFormBoundary");
        let tail = rand_string(16);
        boundary.append(tail.as_str());
        proof {
            assert(boundary@.subrange(0, 22) =~= "------DataFormBoundary"@);
        }
        Self { boundary, buffer: Vec::new() }
    }

    /// Appends one text field: boundary line, `Content-Disposition` header
    /// with the name, blank line, value, line end.
    pub fn append_form_data_field(self, name: &str, value: &str) -> (r: Self)
        ensures
            r.boundary_spec() == self.boundary_spec(),
            r.buffer_spec() == self.buffer_spec() + encode_utf8(
                text_part_chars(self.boundary_spec(), name@, value@),
            ),
    {
        let mut part = String::new();
        part.append("--");
        part.append(self.boundary.as_str());
        part.append("\r\nContent-Disposition: form-data; name=\"");
        part.append(name);
        part.append("\"\r\n\r\n");
        part.append(value);
        part.append("\r\n");

        let mut buffer = self.buffer;
        buffer.extend_from_slice(part.as_str().as_bytes());
        proof {
            assert(part@ =~= text_part_chars(self.boundary_spec(), name@, value@));
        }
        Self { boundary: self.boundary, buffer }
    }

    /// Appends one file field: boundary line, `Content-Disposition` header
    /// with name and file name, `Content-Type` header, blank line, the raw
    /// content, line end.
    pub fn append_form_data_file(
        self,
        name: &str,
        file_name: &str,
        content_type: &str,
        content: &[u8],
    ) -> (r: Self)
        ensures
            r.boundary_spec() == self.boundary_spec(),
            r.buffer_spec() == self.buffer_spec() + encode_utf8(
                file_part_header_chars(self.boundary_spec(), name@, file_name@, content_type@),
            ) + content@ + encode_utf8("\r\n"@),
    {
        let mut part = String::new();
        part.append("--");
        part.append(self.boundary.as_str());
        part.append("\r\nContent-Disposition: form-data; name=\"");
        part.append(name);
        part.append("\"; filename=\"");
        part.append(file_name);
        part.append("\"\r\nContent-Type:");
        part.append(content_type);
        part.append("\r\n\r\n");

        let mut buffer = self.buffer;
        buffer.extend_from_slice(part.as_str().as_bytes());
        proof {
            assert(part@ =~= file_part_header_chars(
                self.boundary_spec(),
                name@,
                file_name@,
                content_type@,
            ));
        }
        buffer.extend_from_slice(content);
        buffer.extend_from_slice("\r\n".as_bytes());
        Self { boundary: self.boundary, buffer }
    }

    /// The finished body: everything appended, closed by the boundary
    /// between two double dashes.
    pub fn into_bytes(self) -> (r: Vec<u8>)
        ensures
            r@ == self.buffer_spec() + encode_utf8("--"@ + self.boundary_spec() + "--"@),
    {
        let mut result = self.buffer;

        let mut closing = String::new();
        closing.append("--");
        closing.append(self.boundary.as_str());
        closing.append("--");
        result.extend_from_slice(closing.as_str().as_bytes());

        result
    }

    /// The `Content-Type` header value announcing this body's boundary.
    pub fn get_content_type(&self) -> (r: String)
        ensures
            r@ == "multipart/form-data; boundary="@ + self.boundary_spec(),
    {
        let mut result = String::new();
        result.append("multipart/form-data; boundary=");
        result.append(self.boundary.as_str());
        result
    }
}

} // verus!
