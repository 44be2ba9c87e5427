//! One decoded multipart field: the header parser and field assembler that
//! turn a raw part span into a typed text or file record, proven equal to
//! the spec-level walk `parse_model`.
use vstd::prelude::*;

use crate::form_data_reader::content_disposition_parser::attrs_bad;
use crate::form_data_reader::content_disposition_parser::attrs_from;
use crate::form_data_reader::content_disposition_parser::first_separator_at;
use crate::form_data_reader::content_disposition_parser::lemma_first_separator_at_bounds;
use crate::form_data_reader::content_disposition_parser::ContentDispositionParser;
use crate::form_data_reader::ReadingFromDataError;
use crate::scan;
use crate::strutil;

verus! {

use vstd::utf8::encode_utf8;
use vstd::utf8::valid_utf8;

/// The blank line that separates a part's header block from its body.
pub open spec fn blank_line() -> Seq<u8> {
    seq![13u8, 10u8, 13u8, 10u8]
}

/// The bytes between `start` and `colon` spell the given header name,
/// compared ASCII case-insensitively.
pub open spec fn names_header(src: Seq<u8>, start: int, colon: int, header: Seq<char>) -> bool {
    strutil::lower_bytes(src.subrange(start, colon)) == strutil::lower_bytes(encode_utf8(header))
}

/// The UTF-8 bytes of an optional captured attribute value.
pub open spec fn opt_bytes(o: Option<&str>) -> Option<Seq<u8>> {
    match o {
        Some(s) => Some(encode_utf8(s@)),
        None => None,
    }
}

/// What one attribute does to the captured `name` / `filename` pair: a
/// `name` or `filename` key replaces the respective capture with the
/// attribute's optional value, anything else is discarded.
pub open spec fn apply_attr(
    nf: (Option<Seq<u8>>, Option<Seq<u8>>),
    e: (Seq<u8>, Option<Seq<u8>>),
) -> (Option<Seq<u8>>, Option<Seq<u8>>) {
    if e.0 == encode_utf8("name"@) {
        (e.1, nf.1)
    } else if e.0 == encode_utf8("filename"@) {
        (nf.0, e.1)
    } else {
        nf
    }
}

/// The captured `name` / `filename` pair after a whole attribute sequence,
/// applied in order.
pub open spec fn apply_attrs(
    nf: (Option<Seq<u8>>, Option<Seq<u8>>),
    attrs: Seq<(Seq<u8>, Option<Seq<u8>>)>,
) -> (Option<Seq<u8>>, Option<Seq<u8>>)
    decreases attrs.len(),
{
    if attrs.len() == 0 {
        nf
    } else {
        apply_attr(apply_attrs(nf, attrs.drop_last()), attrs.last())
    }
}

/// A decoded field at the specification level, all parts as raw bytes.
pub enum ItemModel {
    Text { name: Seq<u8>, value: Seq<u8> },
    File { name: Seq<u8>, file_name: Seq<u8>, content_type: Seq<u8>, content: Seq<u8> },
}

/// The record `item` realises the model: same variant, and every field's
/// UTF-8 bytes (raw bytes for file content) equal the model's.
pub open spec fn matches_model(item: FormDataItem, m: ItemModel) -> bool {
    match item {
        FormDataItem::ValueAsString { name, value } => m matches ItemModel::Text {
            name: mn,
            value: mv,
        } && encode_utf8(name@) == mn && encode_utf8(value@) == mv,
        FormDataItem::File { name, file_name, content_type, content } => m matches ItemModel::File {
            name: mn,
            file_name: mf,
            content_type: mc,
            content: mb,
        } && encode_utf8(name@) == mn && encode_utf8(file_name@) == mf && encode_utf8(
            content_type@,
        ) == mc && content@ == mb,
    }
}

/// What assembling a part span yields, walking the header block from `pos`
/// with the attributes captured so far: at the first blank line the walk
/// reaches, the body is everything up to the trailing CRLF, and the record
/// is a file exactly when a `Content-Type` header was seen; every line up
/// to there is read through its first `:` and ends at the next CR, with
/// `Content-Disposition` attributes folded into the captures. Each
/// structural defect maps to its own error.
pub open spec fn parse_model(
    src: Seq<u8>,
    pos: int,
    name: Option<Seq<u8>>,
    file_name: Option<Seq<u8>>,
    content_type: Option<Seq<u8>>,
) -> Result<ItemModel, ReadingFromDataError>
    decreases src.len() - pos when 0 <= pos via parse_model_decreases
{
    if src.len() - pos < 4 {
        Err(ReadingFromDataError::UnterminatedPart)
    } else if src.subrange(pos, pos + 4) == blank_line() {
        if src.len() - (pos + 4) < 2 {
            Err(ReadingFromDataError::UnterminatedPart)
        } else {
            let body = src.subrange(pos + 4, src.len() - 2);
            match content_type {
                Some(ct) => match (name, file_name) {
                    (Some(n), Some(f)) => Ok(
                        ItemModel::File { name: n, file_name: f, content_type: ct, content: body },
                    ),
                    _ => Err(ReadingFromDataError::MissingMandatoryAttribute),
                },
                None => match name {
                    None => Err(ReadingFromDataError::MissingMandatoryAttribute),
                    Some(n) => if valid_utf8(body) {
                        Ok(ItemModel::Text { name: n, value: body })
                    } else {
                        Err(ReadingFromDataError::InvalidUtf8)
                    },
                },
            }
        }
    } else {
        match scan::first_content_at(src, pos) {
            None => Err(ReadingFromDataError::UnterminatedPart),
            Some(start) => match scan::first_byte_at(src, 58, start) {
                None => Err(ReadingFromDataError::MalformedHeader),
                Some(colon) => {
                    if !valid_utf8(src.subrange(start, colon)) {
                        Err(ReadingFromDataError::InvalidUtf8)
                    } else if names_header(src, start, colon, "content-disposition"@) {
                        match scan::first_byte_at(src, 13, colon + 1) {
                            None => Err(ReadingFromDataError::UnterminatedPart),
                            Some(cd_end) => {
                                let cd = src.subrange(colon + 1, cd_end);
                                if attrs_bad(cd, 0) {
                                    Err(ReadingFromDataError::InvalidUtf8)
                                } else {
                                    let nf = apply_attrs((name, file_name), attrs_from(cd, 0));
                                    parse_model(src, cd_end, nf.0, nf.1, content_type)
                                }
                            },
                        }
                    } else if names_header(src, start, colon, "content-type"@) {
                        match scan::first_content_at(src, colon + 1) {
                            None => Err(ReadingFromDataError::UnterminatedPart),
                            Some(ct_start) => match scan::first_byte_at(src, 13, ct_start) {
                                None => Err(ReadingFromDataError::UnterminatedPart),
                                Some(ct_end) => {
                                    let ctb = src.subrange(ct_start, ct_end);
                                    if valid_utf8(ctb) {
                                        parse_model(src, ct_end, name, file_name, Some(ctb))
                                    } else {
                                        Err(ReadingFromDataError::InvalidUtf8)
                                    }
                                },
                            },
                        }
                    } else {
                        match scan::first_byte_at(src, 13, colon) {
                            None => Err(ReadingFromDataError::UnterminatedPart),
                            Some(cr) => parse_model(src, cr, name, file_name, content_type),
                        }
                    }
                },
            },
        }
    }
}

#[via_fn]
proof fn parse_model_decreases(
    src: Seq<u8>,
    pos: int,
    name: Option<Seq<u8>>,
    file_name: Option<Seq<u8>>,
    content_type: Option<Seq<u8>>,
) {
    scan::lemma_first_content_at_bounds(src, pos);
    match scan::first_content_at(src, pos) {
        Some(start) => {
            scan::lemma_first_byte_at_bounds(src, 58, start);
            match scan::first_byte_at(src, 58, start) {
                Some(colon) => {
                    scan::lemma_first_byte_at_bounds(src, 13, colon + 1);
                    scan::lemma_first_byte_at_bounds(src, 13, colon);
                    scan::lemma_first_content_at_bounds(src, colon + 1);
                    match scan::first_content_at(src, colon + 1) {
                        Some(ct_start) => {
                            scan::lemma_first_byte_at_bounds(src, 13, ct_start);
                        },
                        None => {},
                    }
                },
                None => {},
            }
        },
        None => {},
    }
}

/// One field of a multipart payload: a plain text value, or an uploaded
/// file. A record is a file exactly when its part carried a `Content-Type`
/// header. All fields are views into the payload buffer.
#[derive(Debug)]
pub enum FormDataItem<'s> {
    ValueAsString { name: &'s str, value: &'s str },
    File { name: &'s str, file_name: &'s str, content_type: &'s str, content: &'s [u8] },
}

impl<'s> FormDataItem<'s> {
    /// The field's name, from the `name` attribute of its
    /// `Content-Disposition` header.
    pub open spec fn spec_name(&self) -> Seq<char> {
        match self {
            FormDataItem::ValueAsString { name, .. } => name@,
            FormDataItem::File { name, .. } => name@,
        }
    }

    /// The text value of a text field; coercing a file field fails with a
    /// validation error naming the field.
    pub fn unwrap_as_string(&'s self) -> (r: Result<&'s str, ReadingFromDataError>)
        ensures
            match r {
                Ok(v) => self matches FormDataItem::ValueAsString { value, .. } && v@ == value@,
                Err(e) => self is File && (e matches ReadingFromDataError::ValidationError {
                    field,
                    ..
                } && field@ == self.spec_name()),
            },
    {
        match self {
            FormDataItem::ValueAsString { value, .. } => Ok(value),
            FormDataItem::File { name, .. } => Err(
                ReadingFromDataError::ValidationError {
                    field: (*name).to_owned(),
                    error: "Can not unwrap as string. It is file".to_owned(),
                },
            ),
        }
    }

    /// The file name of a file field; a text field has none.
    pub fn unwrap_as_file_name(&'s self) -> (r: &'s str)
        requires
            self is File,
        ensures
            self matches FormDataItem::File { file_name, .. } && r@ == file_name@,
    {
        match self {
            FormDataItem::ValueAsString { .. } => {
                // unreachable: a text field is excluded by the precondition
                proof {
                    assert(false);
                }
                ""
            },
            FormDataItem::File { file_name, .. } => file_name,
        }
    }

    /// The field's name.
    pub fn get_name(&'s self) -> (r: &'s str)
        ensures
            r@ == self.spec_name(),
    {
        match self {
            FormDataItem::ValueAsString { name, .. } => name,
            FormDataItem::File { name, .. } => name,
        }
    }

    /// Assembles one field record from a raw part span, returning exactly
    /// what `parse_model` assigns to the span: the same success or error,
    /// and on success a record realising the model — variant, name, file
    /// name, content type and body all fixed.
    #[verifier::rlimit(100)]
    pub fn parse(src: &'s [u8]) -> (r: Result<Self, ReadingFromDataError>)
        ensures
            ({
                let m = parse_model(src@, 0, None, None, None);
                match r {
                    Ok(item) => m matches Ok(mi) && matches_model(item, mi),
                    Err(e) => m matches Err(me) && e == me,
                }
            }),
            r matches Err(e) ==> e.is_structural(),
    {
        broadcast use vstd::utf8::decode_utf8_encode_utf8, vstd::utf8::encode_utf8_decode_utf8;

        let mut content_type: Option<&'s str> = None;
        let mut file_name: Option<&'s str> = None;
        let mut name: Option<&'s str> = None;
        let mut pos: usize = 0;

        loop
            invariant
                pos <= src.len(),
                parse_model(src@, 0, None, None, None) == parse_model(
                    src@,
                    pos as int,
                    opt_bytes(name),
                    opt_bytes(file_name),
                    opt_bytes(content_type),
                ),
            decreases src.len() - pos,
        {
            let ghost pos_l = pos as int;
            let ghost nb_l = opt_bytes(name);
            let ghost fb_l = opt_bytes(file_name);
            let ghost cb_l = opt_bytes(content_type);
            if src.len() - pos < 4 {
                return Err(ReadingFromDataError::UnterminatedPart);
            }
            if src[pos] == 13 && src[pos + 1] == 10 && src[pos + 2] == 13 && src[pos + 3] == 10 {
                assert(src@.subrange(pos as int, pos + 4) =~= blank_line());
                if src.len() - (pos + 4) < 2 {
                    return Err(ReadingFromDataError::UnterminatedPart);
                }
                let body = vstd::slice::slice_subrange(src, pos + 4, src.len() - 2);
                if let Some(content_type) = content_type {
                    match (name, file_name) {
                        (Some(name), Some(file_name)) => {
                            let item = FormDataItem::File {
                                name,
                                file_name,
                                content_type,
                                content: body,
                            };
                            return Ok(item);
                        },
                        _ => {
                            return Err(ReadingFromDataError::MissingMandatoryAttribute);
                        },
                    }
                } else {
                    let Some(name) = name else {
                        return Err(ReadingFromDataError::MissingMandatoryAttribute);
                    };
                    if body.len() == 0 {
                        let item = FormDataItem::ValueAsString { name, value: "" };
                        proof {
                            reveal_strlit("");
                            assert(""@ =~= Seq::<char>::empty());
                            assert(body@ =~= Seq::<u8>::empty());
                            assert(valid_utf8(body@));
                            assert(encode_utf8(""@) =~= Seq::<u8>::empty());
                        }
                        return Ok(item);
                    }
                    let value = match strutil::bytes_as_str(body) {
                        Some(v) => v,
                        None => {
                            return Err(ReadingFromDataError::InvalidUtf8);
                        },
                    };
                    proof {
                        vstd::utf8::decode_utf8_encode_utf8(body@);
                    }
                    let item = FormDataItem::ValueAsString { name, value };
                    return Ok(item);
                }
            }
            proof {
                assert(src@.subrange(pos as int, pos + 4) != blank_line()) by {
                    if src@.subrange(pos as int, pos + 4) == blank_line() {
                        assert(src@.subrange(pos as int, pos + 4)[0] == 13u8);
                        assert(src@.subrange(pos as int, pos + 4)[1] == 10u8);
                        assert(src@.subrange(pos as int, pos + 4)[2] == 13u8);
                        assert(src@.subrange(pos as int, pos + 4)[3] == 10u8);
                    }
                }
            }
            let found_start = scan::find_non_space(src, pos);
            proof {
                scan::lemma_first_content_at_agrees(src@, pos as int, found_start);
            }
            let start = match found_start {
                Some(i) => i,
                None => {
                    return Err(ReadingFromDataError::UnterminatedPart);
                },
            };
            let found_colon = scan::find_byte_pos(src, 58, start);
            proof {
                scan::lemma_first_byte_at_agrees(src@, 58, start as int, found_colon);
            }
            let colon = match found_colon {
                Some(i) => i,
                None => {
                    return Err(ReadingFromDataError::MalformedHeader);
                },
            };
            let header_bytes = vstd::slice::slice_subrange(src, start, colon);
            let header = match strutil::bytes_as_str(header_bytes) {
                Some(hn) => hn,
                None => {
                    return Err(ReadingFromDataError::InvalidUtf8);
                },
            };
            proof {
                assert(valid_utf8(header_bytes@));
                vstd::utf8::decode_utf8_encode_utf8(header_bytes@);
                assert(encode_utf8(header@) == src@.subrange(start as int, colon as int));
            }
            if strutil::str_eq_ignore_ascii_case(header, "content-disposition") {
                proof {
                    assert(names_header(src@, start as int, colon as int, "content-disposition"@));
                }
                let found_cd_end = scan::find_byte_pos(src, 13, colon + 1);
                proof {
                    scan::lemma_first_byte_at_agrees(src@, 13, colon + 1, found_cd_end);
                }
                let cd_end = match found_cd_end {
                    Some(i) => i,
                    None => {
                        return Err(ReadingFromDataError::UnterminatedPart);
                    },
                };
                let cd_data = vstd::slice::slice_subrange(src, colon + 1, cd_end);
                let ghost cdseq = cd_data@;
                let ghost nf0 = (opt_bytes(name), opt_bytes(file_name));
                let ghost mut done: Seq<(Seq<u8>, Option<Seq<u8>>)> = Seq::empty();
                let mut attrs = ContentDispositionParser::new(cd_data);
                proof {
                    assert(attrs_from(cdseq, 0) =~= done + attrs_from(cdseq, 0));
                }
                #[verifier::loop_isolation(false)]
                loop
                    invariant
                        attrs.inv(),
                        attrs.content_spec() == cdseq,
                        0 <= attrs.pos_spec() <= cdseq.len(),
                        attrs_from(cdseq, 0) == done + attrs_from(cdseq, attrs.pos_spec()),
                        attrs_bad(cdseq, 0) == attrs_bad(cdseq, attrs.pos_spec()),
                        (opt_bytes(name), opt_bytes(file_name)) == apply_attrs(nf0, done),
                    decreases cdseq.len() - attrs.pos_spec(),
                {
                    let ghost p0 = attrs.pos_spec();
                    match attrs.next() {
                        Err(e) => {
                            proof {
                                // the tokenizer hit non-UTF-8 bytes, so the
                                // whole header value scans as bad
                                assert(attrs_bad(cdseq, p0));
                                assert(attrs_bad(cdseq, 0));
                            }
                            return Err(e);
                        },
                        Ok(None) => {
                            proof {
                                assert(attrs_from(cdseq, p0) =~= Seq::<(
                                    Seq<u8>,
                                    Option<Seq<u8>>,
                                )>::empty());
                                assert(attrs_from(cdseq, 0) =~= done);
                                assert(!attrs_bad(cdseq, p0));
                            }
                            break ;
                        },
                        Ok(Some(kv)) => {
                            let ghost p1 = attrs.pos_spec();
                            let ghost e = attrs_from(cdseq, p0)[0];
                            proof {
                                scan::lemma_first_content_at_bounds(cdseq, p0);
                                let st = scan::first_content_at(cdseq, p0)->Some_0;
                                lemma_first_separator_at_bounds(cdseq, st);
                                let sp = first_separator_at(cdseq, st)->Some_0;
                                scan::lemma_first_byte_at_bounds(cdseq, 34, sp + 1);
                                match scan::first_byte_at(cdseq, 34, sp + 1) {
                                    Some(op) => {
                                        scan::lemma_first_byte_at_bounds(cdseq, 34, op + 1);
                                    },
                                    None => {},
                                }
                                assert(attrs_from(cdseq, p0) =~= seq![e] + attrs_from(cdseq, p1));
                                assert(attrs_bad(cdseq, p0) == attrs_bad(cdseq, p1));
                                assert(encode_utf8(kv.key@) == e.0) by {
                                    vstd::utf8::decode_utf8_encode_utf8(e.0);
                                }
                                assert(opt_bytes(kv.value) == e.1) by {
                                    match e.1 {
                                        Some(vb) => {
                                            vstd::utf8::decode_utf8_encode_utf8(vb);
                                        },
                                        None => {},
                                    }
                                }
                                let done0 = done;
                                done = done.push(e);
                                assert(attrs_from(cdseq, 0) =~= done + attrs_from(cdseq, p1));
                                assert(done.drop_last() =~= done0);
                                assert(done.last() == e);
                                assert(apply_attrs(nf0, done) == apply_attr(
                                    apply_attrs(nf0, done0),
                                    e,
                                ));
                            }
                            if strutil::str_eq(kv.key, "name") {
                                proof {
                                    assert(e.0 == encode_utf8("name"@));
                                }
                                name = kv.value;
                            } else if strutil::str_eq(kv.key, "filename") {
                                proof {
                                    assert(e.0 != encode_utf8("name"@)) by {
                                        if e.0 == encode_utf8("name"@) {
                                            vstd::utf8::encode_utf8_decode_utf8(kv.key@);
                                            vstd::utf8::encode_utf8_decode_utf8("name"@);
                                        }
                                    }
                                    assert(e.0 == encode_utf8("filename"@));
                                }
                                file_name = kv.value;
                            } else {
                                proof {
                                    assert(e.0 != encode_utf8("name"@)) by {
                                        if e.0 == encode_utf8("name"@) {
                                            vstd::utf8::encode_utf8_decode_utf8(kv.key@);
                                            vstd::utf8::encode_utf8_decode_utf8("name"@);
                                        }
                                    }
                                    assert(e.0 != encode_utf8("filename"@)) by {
                                        if e.0 == encode_utf8("filename"@) {
                                            vstd::utf8::encode_utf8_decode_utf8(kv.key@);
                                            vstd::utf8::encode_utf8_decode_utf8("filename"@);
                                        }
                                    }
                                }
                            }
                        },
                    }
                }
                proof {
                    assert(!attrs_bad(cdseq, 0));
                    assert(parse_model(src@, pos_l, nb_l, fb_l, cb_l) == parse_model(
                        src@,
                        cd_end as int,
                        opt_bytes(name),
                        opt_bytes(file_name),
                        cb_l,
                    ));
                }
                pos = cd_end;
            } else if strutil::str_eq_ignore_ascii_case(header, "content-type") {
                proof {
                    assert(!names_header(
                        src@,
                        start as int,
                        colon as int,
                        "content-disposition"@,
                    ));
                    assert(names_header(src@, start as int, colon as int, "content-type"@));
                }
                let found_ct_start = scan::find_non_space(src, colon + 1);
                proof {
                    scan::lemma_first_content_at_agrees(src@, colon + 1, found_ct_start);
                }
                let ct_start = match found_ct_start {
                    Some(i) => i,
                    None => {
                        return Err(ReadingFromDataError::UnterminatedPart);
                    },
                };
                let found_ct_end = scan::find_byte_pos(src, 13, ct_start);
                proof {
                    scan::lemma_first_byte_at_agrees(src@, 13, ct_start as int, found_ct_end);
                }
                let ct_end = match found_ct_end {
                    Some(i) => i,
                    None => {
                        return Err(ReadingFromDataError::UnterminatedPart);
                    },
                };
                let ct_bytes = vstd::slice::slice_subrange(src, ct_start, ct_end);
                content_type = match strutil::bytes_as_str(ct_bytes) {
                    Some(ct) => Some(ct),
                    None => {
                        return Err(ReadingFromDataError::InvalidUtf8);
                    },
                };
                proof {
                    let ct = content_type->Some_0;
                    assert(valid_utf8(ct_bytes@));
                    vstd::utf8::decode_utf8_encode_utf8(ct_bytes@);
                    assert(encode_utf8(ct@) == src@.subrange(ct_start as int, ct_end as int));
                    assert(parse_model(src@, pos_l, nb_l, fb_l, cb_l) == parse_model(
                        src@,
                        ct_end as int,
                        nb_l,
                        fb_l,
                        opt_bytes(content_type),
                    ));
                }
                pos = ct_end;
            } else {
                proof {
                    assert(!names_header(
                        src@,
                        start as int,
                        colon as int,
                        "content-disposition"@,
                    ));
                    assert(!names_header(src@, start as int, colon as int, "content-type"@));
                }
                let found_cr = scan::find_byte_pos(src, 13, colon);
                proof {
                    scan::lemma_first_byte_at_agrees(src@, 13, colon as int, found_cr);
                }
                pos = match found_cr {
                    Some(i) => i,
                    None => {
                        return Err(ReadingFromDataError::UnterminatedPart);
                    },
                };
                proof {
                    assert(parse_model(src@, pos_l, nb_l, fb_l, cb_l) == parse_model(
                        src@,
                        pos as int,
                        nb_l,
                        fb_l,
                        cb_l,
                    ));
                }
            }
        }
    }
}

} // verus!
