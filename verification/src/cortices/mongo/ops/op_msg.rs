//! OP_MSG, the extensible message: flag bits, then sections that each hold a
//! single document or a named sequence of documents, then an optional
//! checksum.
//! @see https://docs.mongodb.com/manual/reference/mongodb-wire-protocol/#op-msg

use crate::cortices::mongo::error::MongoParserError;
use crate::cortices::mongo::ops::msg_header::{msg_header_bytes, serialize_msg_header, MsgHeader};
use crate::cortices::mongo::utils::{
    bson_document_decodes, bson_size_at, parse_bson_document, BsonDocument,
};
use crate::cortices::utils::{
    append_bytes, append_str, cstring_at, is_first_zero, parse_cstring, parse_u32, parse_u8,
    ParseOutcome,
};
use crate::errors::{ImmuxError, ImmuxResult};
use crate::utils::{
    bit_u32, get_bit_u32, le_u32_value, lemma_u32_le_bytes_of_value,
    lemma_with_bit_u32,
    set_bit_u32, u32_le_bytes, u32_to_u8_array, u8_array_to_u32, with_bit_u32,
};
use vstd::prelude::*;
use vstd::utf8::{decode_utf8_encode_utf8, encode_utf8};

verus! {

pub const CHECK_SUM_PRESENT_DIGIT: u8 = 0;
pub const MORE_TO_COME_DIGIT: u8 = 1;
pub const EXHAUST_ALLOWED_DIGIT: u8 = 16;
pub const SINGLE_TYPE: u8 = 0x00;
pub const SEQUENCE_TYPE: u8 = 0x01;

/// @see https://docs.mongodb.com/manual/reference/mongodb-wire-protocol/#flag-bits
#[derive(Debug, Clone, Copy, PartialEq, Eq, Structural)]
pub struct OpMsgFlags {
    pub check_sum_present: bool,
    pub more_to_come: bool,
    pub exhaust_allowed: bool,
}

/// @see https://docs.mongodb.com/manual/reference/mongodb-wire-protocol/#kind-1-document-sequence
#[derive(Debug)]
pub struct DocumentSequence {
    pub section_size: u32,
    /// The identifier, without its terminating zero byte.
    pub identifier: String,
    pub documents: Vec<BsonDocument>,
}

/// @see https://docs.mongodb.com/manual/reference/mongodb-wire-protocol/#wire-msg-sections
#[derive(Debug)]
pub enum Section {
    Single(BsonDocument),
    Sequence(DocumentSequence),
}

/// @see https://docs.mongodb.com/manual/reference/mongodb-wire-protocol/#op-msg
#[derive(Debug)]
pub struct OpMsg {
    pub message_header: MsgHeader,
    pub flags: OpMsgFlags,
    pub sections: Vec<Section>,
    /// The CRC-32C checksum, when one is present.
    pub checksum: Option<u32>,
}

/// A section with its documents taken as byte strings.
pub enum SectionModel {
    Single(Seq<u8>),
    Sequence(u32, Seq<char>, Seq<Seq<u8>>),
}

/// A message with its sections taken as models.
pub struct OpMsgModel {
    pub message_header: MsgHeader,
    pub flags: OpMsgFlags,
    pub sections: Seq<SectionModel>,
    pub checksum: Option<u32>,
}

pub open spec fn documents_view(docs: Seq<BsonDocument>) -> Seq<Seq<u8>> {
    docs.map_values(|d: BsonDocument| d.bytes@)
}

pub open spec fn section_model(s: Section) -> SectionModel {
    match s {
        Section::Single(d) => SectionModel::Single(d.bytes@),
        Section::Sequence(q) => SectionModel::Sequence(
            q.section_size,
            q.identifier@,
            documents_view(q.documents@),
        ),
    }
}

pub open spec fn sections_view(sections: Seq<Section>) -> Seq<SectionModel> {
    sections.map_values(|s: Section| section_model(s))
}

pub open spec fn op_msg_model(m: OpMsg) -> OpMsgModel {
    OpMsgModel {
        message_header: m.message_header,
        flags: m.flags,
        sections: sections_view(m.sections@),
        checksum: m.checksum,
    }
}

/// How reading a message ends, as far as the contracts tell: with a value,
/// with a known error, with a document the BSON decoder rejects, or by
/// running past the end of the buffer.
pub enum MongoOutcome<T> {
    Parsed(T),
    Failed(ImmuxError),
    BsonRejected,
    OutOfBounds,
}

/// An outcome of reading that agrees with what `spec` says, the value read
/// taken by `model`.
pub open spec fn outcome_agrees<T, M>(
    read: ParseOutcome<T>,
    spec: MongoOutcome<M>,
    model: spec_fn(T) -> M,
) -> bool {
    match spec {
        MongoOutcome::Parsed(m) => read matches ParseOutcome::Parsed(x) && model(x) == m,
        MongoOutcome::Failed(e) => read matches ParseOutcome::Failed(f) && f == e,
        MongoOutcome::BsonRejected => read matches ParseOutcome::Failed(
            ImmuxError::MongoParser(MongoParserError::ParseBsonError(_)),
        ),
        MongoOutcome::OutOfBounds => read is OutOfBounds,
    }
}

/// A result that agrees with what `spec` says, the value taken by `model`.
pub open spec fn result_agrees<T, M>(
    res: ImmuxResult<T>,
    spec: MongoOutcome<M>,
    model: spec_fn(T) -> M,
) -> bool {
    match spec {
        MongoOutcome::Parsed(m) => res matches Ok(x) && model(x) == m,
        MongoOutcome::Failed(e) => res matches Err(f) && f == e,
        MongoOutcome::BsonRejected => res matches Err(
            ImmuxError::MongoParser(MongoParserError::ParseBsonError(_)),
        ),
        MongoOutcome::OutOfBounds => false,
    }
}

pub open spec fn not_enough_buffer() -> ImmuxError {
    ImmuxError::MongoParser(MongoParserError::NotEnoughBufferSize)
}

/// The flags a flag word carries.
pub open spec fn op_msg_flags_of(word: u32) -> OpMsgFlags {
    OpMsgFlags {
        check_sum_present: bit_u32(word, 0),
        more_to_come: bit_u32(word, 1),
        exhaust_allowed: bit_u32(word, 16),
    }
}

/// The flag word written for `flags`.
pub open spec fn op_msg_flags_word(flags: OpMsgFlags) -> u32 {
    with_bit_u32(
        with_bit_u32(with_bit_u32(0, 0, flags.check_sum_present), 1, flags.more_to_come),
        16,
        flags.exhaust_allowed,
    )
}

/// Reading back a written flag word gives the flags.
pub proof fn lemma_op_msg_flags_roundtrip(flags: OpMsgFlags)
    ensures
        op_msg_flags_of(op_msg_flags_word(flags)) == flags,
{
    let w0 = with_bit_u32(0, 0, flags.check_sum_present);
    let w1 = with_bit_u32(w0, 1, flags.more_to_come);
    let w2 = with_bit_u32(w1, 16, flags.exhaust_allowed);
    lemma_with_bit_u32(0, 0, 0, flags.check_sum_present);
    lemma_with_bit_u32(w0, 1, 0, flags.more_to_come);
    lemma_with_bit_u32(w0, 1, 1, flags.more_to_come);
    lemma_with_bit_u32(w1, 16, 0, flags.exhaust_allowed);
    lemma_with_bit_u32(w1, 16, 1, flags.exhaust_allowed);
    lemma_with_bit_u32(w1, 16, 16, flags.exhaust_allowed);
}

/// The documents of a sequence at byte `i` of `b`, `remaining` bytes of them,
/// and the position after them.
pub open spec fn document_sequence_at(b: Seq<u8>, i: int, remaining: int) -> MongoOutcome<
    (Seq<Seq<u8>>, int),
>
    decreases remaining,
{
    if remaining <= 0 {
        MongoOutcome::Parsed((Seq::empty(), i))
    } else if i < 0 || i + 4 > b.len() {
        MongoOutcome::OutOfBounds
    } else {
        let size = bson_size_at(b.skip(i));
        if size > remaining || size > b.len() - i {
            MongoOutcome::OutOfBounds
        } else if size < 5 || !bson_document_decodes(b.subrange(i, i + size)) {
            MongoOutcome::BsonRejected
        } else {
            match document_sequence_at(b, i + size, remaining - size) {
                MongoOutcome::Parsed((docs, j)) => MongoOutcome::Parsed(
                    (seq![b.subrange(i, i + size)] + docs, j),
                ),
                MongoOutcome::Failed(e) => MongoOutcome::Failed(e),
                MongoOutcome::BsonRejected => MongoOutcome::BsonRejected,
                MongoOutcome::OutOfBounds => MongoOutcome::OutOfBounds,
            }
        }
    }
}

/// A document sequence read from byte `i` on ends after `i`, inside `b`.
pub proof fn lemma_document_sequence_advances(b: Seq<u8>, i: int, remaining: int)
    requires
        0 <= i <= b.len(),
    ensures
        document_sequence_at(b, i, remaining) matches MongoOutcome::Parsed((_, j)) ==> i <= j
            <= b.len(),
    decreases remaining,
{
    if remaining > 0 && i + 4 <= b.len() {
        let size = bson_size_at(b.skip(i));
        if size <= remaining && size <= b.len() - i && size >= 5 {
            lemma_document_sequence_advances(b, i + size, remaining - size);
        }
    }
}

/// The section of kind `kind` whose body starts at byte `j` of `b`, and the
/// position after it.
pub open spec fn section_at(b: Seq<u8>, kind: u8, j: int) -> MongoOutcome<(SectionModel, int)> {
    if kind == SINGLE_TYPE {
        if b.len() - j < 4 {
            MongoOutcome::Failed(not_enough_buffer())
        } else {
            let size = bson_size_at(b.skip(j));
            if size > b.len() - j {
                MongoOutcome::OutOfBounds
            } else if size < 5 || !bson_document_decodes(b.subrange(j, j + size)) {
                MongoOutcome::BsonRejected
            } else {
                MongoOutcome::Parsed((SectionModel::Single(b.subrange(j, j + size)), j + size))
            }
        }
    } else if kind == SEQUENCE_TYPE {
        if b.len() - j < 4 {
            MongoOutcome::Failed(not_enough_buffer())
        } else {
            let section_size = le_u32_value(b.skip(j)) as u32;
            match cstring_at(b.skip(j + 4)) {
                None => MongoOutcome::Failed(
                    ImmuxError::MongoParser(MongoParserError::ParseStringError),
                ),
                Some((identifier, n)) => if section_size < 4 + n {
                    MongoOutcome::OutOfBounds
                } else {
                    match document_sequence_at(b, j + 4 + n, section_size - 4 - n) {
                        MongoOutcome::Parsed((docs, k)) => MongoOutcome::Parsed(
                            (SectionModel::Sequence(section_size, identifier, docs), k),
                        ),
                        MongoOutcome::Failed(e) => MongoOutcome::Failed(e),
                        MongoOutcome::BsonRejected => MongoOutcome::BsonRejected,
                        MongoOutcome::OutOfBounds => MongoOutcome::OutOfBounds,
                    }
                },
            }
        }
    } else {
        MongoOutcome::Failed(ImmuxError::MongoParser(MongoParserError::UnknownSectionKind))
    }
}

/// A section read from byte `j` on ends after `j`, inside `b`.
pub proof fn lemma_section_advances(b: Seq<u8>, kind: u8, j: int)
    requires
        0 <= j <= b.len(),
    ensures
        section_at(b, kind, j) matches MongoOutcome::Parsed((_, k)) ==> j < k <= b.len(),
{
    if kind == SEQUENCE_TYPE && b.len() - j >= 4 {
        if let Some((identifier, n)) = cstring_at(b.skip(j + 4)) {
            let section_size = le_u32_value(b.skip(j)) as u32;
            if section_size >= 4 + n {
                lemma_document_sequence_advances(b, j + 4 + n, section_size - 4 - n);
            }
        }
    }
}

/// Whether the sections end at byte `i`: right before the checksum when
/// one is present, else at the end of `b`.
pub open spec fn sections_end_at(b: Seq<u8>, check_sum_present: bool, i: int) -> bool {
    (check_sum_present && b.len() - i == 4) || (!check_sum_present && i == b.len())
}

/// The sections from byte `i` of `b` on, and the position where they end.
pub open spec fn op_msg_sections_at(b: Seq<u8>, check_sum_present: bool, i: int) -> MongoOutcome<
    (Seq<SectionModel>, int),
>
    decreases b.len() - i,
{
    if i < 0 || i > b.len() {
        MongoOutcome::OutOfBounds
    } else if sections_end_at(b, check_sum_present, i) {
        MongoOutcome::Parsed((Seq::empty(), i))
    } else if i == b.len() {
        MongoOutcome::Failed(not_enough_buffer())
    } else {
        match section_at(b, b[i], i + 1) {
            MongoOutcome::Parsed((s, k)) => {
                proof {
                    lemma_section_advances(b, b[i], i + 1);
                }
                match op_msg_sections_at(b, check_sum_present, k) {
                    MongoOutcome::Parsed((rest, end)) => MongoOutcome::Parsed((seq![s] + rest, end)),
                    MongoOutcome::Failed(e) => MongoOutcome::Failed(e),
                    MongoOutcome::BsonRejected => MongoOutcome::BsonRejected,
                    MongoOutcome::OutOfBounds => MongoOutcome::OutOfBounds,
                }
            },
            MongoOutcome::Failed(e) => MongoOutcome::Failed(e),
            MongoOutcome::BsonRejected => MongoOutcome::BsonRejected,
            MongoOutcome::OutOfBounds => MongoOutcome::OutOfBounds,
        }
    }
}

/// The message whose header is `header` and whose body is `b`: the flag
/// word, the sections, and the checksum when the flags announce one.
pub open spec fn op_msg_at(header: MsgHeader, b: Seq<u8>) -> MongoOutcome<OpMsgModel> {
    if b.len() < 4 {
        MongoOutcome::Failed(not_enough_buffer())
    } else {
        let flags = op_msg_flags_of(le_u32_value(b) as u32);
        match op_msg_sections_at(b, flags.check_sum_present, 4) {
            MongoOutcome::Parsed((sections, end)) => MongoOutcome::Parsed(
                OpMsgModel {
                    message_header: header,
                    flags,
                    sections,
                    checksum: if flags.check_sum_present {
                        Some(le_u32_value(b.skip(end)) as u32)
                    } else {
                        None
                    },
                },
            ),
            MongoOutcome::Failed(e) => MongoOutcome::Failed(e),
            MongoOutcome::BsonRejected => MongoOutcome::BsonRejected,
            MongoOutcome::OutOfBounds => MongoOutcome::OutOfBounds,
        }
    }
}

/// `prefix` in front of the documents an outcome read.
pub open spec fn prepend_documents(
    prefix: Seq<Seq<u8>>,
    o: MongoOutcome<(Seq<Seq<u8>>, int)>,
) -> MongoOutcome<(Seq<Seq<u8>>, int)> {
    match o {
        MongoOutcome::Parsed((docs, j)) => MongoOutcome::Parsed((prefix + docs, j)),
        MongoOutcome::Failed(e) => MongoOutcome::Failed(e),
        MongoOutcome::BsonRejected => MongoOutcome::BsonRejected,
        MongoOutcome::OutOfBounds => MongoOutcome::OutOfBounds,
    }
}

/// `prefix` in front of the sections an outcome read.
pub open spec fn prepend_sections(
    prefix: Seq<SectionModel>,
    o: MongoOutcome<(Seq<SectionModel>, int)>,
) -> MongoOutcome<(Seq<SectionModel>, int)> {
    match o {
        MongoOutcome::Parsed((s, j)) => MongoOutcome::Parsed((prefix + s, j)),
        MongoOutcome::Failed(e) => MongoOutcome::Failed(e),
        MongoOutcome::BsonRejected => MongoOutcome::BsonRejected,
        MongoOutcome::OutOfBounds => MongoOutcome::OutOfBounds,
    }
}

/// Reads the documents of a sequence, `remaining` bytes of them, from byte
/// `index` of `buffer` on.
fn read_document_sequence(buffer: &[u8], start: usize, remaining: usize) -> (res: ParseOutcome<
    (Vec<BsonDocument>, usize),
>)
    requires
        start <= buffer@.len(),
    ensures
        outcome_agrees(
            res,
            document_sequence_at(buffer@, start as int, remaining as int),
            |r: (Vec<BsonDocument>, usize)| (documents_view(r.0@), r.1 as int),
        ),
{
    let mut index = start;
    let mut bson_documents_size = remaining;
    let mut documents: Vec<BsonDocument> = Vec::new();
    while bson_documents_size != 0
        invariant
            index <= buffer@.len(),
            document_sequence_at(buffer@, start as int, remaining as int) == prepend_documents(
                documents_view(documents@),
                document_sequence_at(buffer@, index as int, bson_documents_size as int),
            ),
        decreases bson_documents_size,
    {
        let ghost current = document_sequence_at(
            buffer@,
            index as int,
            bson_documents_size as int,
        );
        if buffer.len() - index < 4 {
            assert(current is OutOfBounds);
            return ParseOutcome::OutOfBounds;
        }
        let bson_doc_size = u8_array_to_u32(
            &[buffer[index], buffer[index + 1], buffer[index + 2], buffer[index + 3]],
        ) as usize;
        assert(buffer@.skip(index as int).take(4) =~= buffer@.subrange(index as int, index + 4));
        assert(bson_doc_size == bson_size_at(buffer@.skip(index as int)));
        if bson_doc_size > bson_documents_size {
            assert(current is OutOfBounds);
            return ParseOutcome::OutOfBounds;
        }
        bson_documents_size -= bson_doc_size;
        if bson_doc_size > buffer.len() - index {
            assert(current is OutOfBounds);
            return ParseOutcome::OutOfBounds;
        }
        let rest = &buffer[index..buffer.len()];
        assert(rest@ =~= buffer@.skip(index as int));
        assert(rest@.take(bson_doc_size as int) =~= buffer@.subrange(
            index as int,
            index + bson_doc_size,
        ));
        match parse_bson_document(rest) {
            Err(e) => {
                assert(current is BsonRejected);
                return ParseOutcome::Failed(e);
            },
            Ok((doc, offset)) => {
                let ghost before = documents_view(documents@);
                documents.push(doc);
                assert(documents_view(documents@) =~= before + seq![
                    buffer@.subrange(index as int, index + offset),
                ]);
                index += offset;
                proof {
                    let inner = document_sequence_at(
                        buffer@,
                        index as int,
                        bson_documents_size as int,
                    );
                    match inner {
                        MongoOutcome::Parsed((docs, j)) => {
                            assert(before + (seq![
                                buffer@.subrange(index - offset, index as int),
                            ] + docs) =~= documents_view(documents@) + docs);
                        },
                        _ => {},
                    }
                }
            },
        }
    }
    assert(documents_view(documents@) + Seq::<Seq<u8>>::empty() =~= documents_view(documents@));
    ParseOutcome::Parsed((documents, index))
}

/// Reads one section whose kind byte was `kind` and whose body starts at
/// byte `index` of `buffer`.
fn read_section(buffer: &[u8], kind: u8, index: usize) -> (res: ParseOutcome<(Section, usize)>)
    requires
        index <= buffer@.len(),
    ensures
        outcome_agrees(
            res,
            section_at(buffer@, kind, index as int),
            |r: (Section, usize)| (section_model(r.0), r.1 as int),
        ),
{
    let rest = &buffer[index..buffer.len()];
    assert(rest@ =~= buffer@.skip(index as int));
    if kind == SINGLE_TYPE {
        if rest.len() >= 4 {
            let size = u8_array_to_u32(&[rest[0], rest[1], rest[2], rest[3]]) as usize;
            assert(rest@.take(4) =~= rest@.subrange(0, 4));
            if size > rest.len() {
                return ParseOutcome::OutOfBounds;
            }
            assert(rest@.take(size as int) =~= buffer@.subrange(index as int, index + size));
        }
        match parse_bson_document(rest) {
            Err(e) => ParseOutcome::Failed(e),
            Ok((doc, offset)) => ParseOutcome::Parsed((Section::Single(doc), index + offset)),
        }
    } else if kind == SEQUENCE_TYPE {
        let (section_size, offset) = match parse_u32(
            rest,
            ImmuxError::MongoParser(MongoParserError::NotEnoughBufferSize),
        ) {
            Ok(v) => v,
            Err(e) => {
                return ParseOutcome::Failed(e);
            },
        };
        let after_size = index + offset;
        let (identifier, offset) = match parse_cstring(
            &buffer[after_size..buffer.len()],
            ImmuxError::MongoParser(MongoParserError::ParseStringError),
        ) {
            Ok(v) => v,
            Err(e) => {
                assert(buffer@.subrange(after_size as int, buffer@.len() as int) =~= buffer@.skip(
                    after_size as int,
                ));
                return ParseOutcome::Failed(e);
            },
        };
        assert(buffer@.subrange(after_size as int, buffer@.len() as int) =~= buffer@.skip(
            after_size as int,
        ));
        let after_identifier = after_size + offset;
        if (section_size as usize) < 4 + offset {
            return ParseOutcome::OutOfBounds;
        }
        let bson_documents_size = (section_size as usize) - 4 - offset;
        match read_document_sequence(buffer, after_identifier, bson_documents_size) {
            ParseOutcome::Parsed((documents, end)) => ParseOutcome::Parsed(
                (Section::Sequence(DocumentSequence { section_size, identifier, documents }), end),
            ),
            ParseOutcome::Failed(e) => ParseOutcome::Failed(e),
            ParseOutcome::OutOfBounds => ParseOutcome::OutOfBounds,
        }
    } else {
        ParseOutcome::Failed(ImmuxError::MongoParser(MongoParserError::UnknownSectionKind))
    }
}

/// The section whose kind byte is at byte `i` of `b`, and the position after it.
pub open spec fn next_section_at(b: Seq<u8>, i: int) -> MongoOutcome<(SectionModel, int)> {
    if i >= b.len() {
        MongoOutcome::Failed(not_enough_buffer())
    } else {
        section_at(b, b[i], i + 1)
    }
}

/// Reading the sections from a position where they do not end reads the
/// next section, then the sections after it.
proof fn lemma_sections_step(b: Seq<u8>, check_sum_present: bool, i: int)
    requires
        0 <= i <= b.len(),
        !sections_end_at(b, check_sum_present, i),
    ensures
        op_msg_sections_at(b, check_sum_present, i) == match next_section_at(b, i) {
            MongoOutcome::Parsed((s, k)) => prepend_sections(
                seq![s],
                op_msg_sections_at(b, check_sum_present, k),
            ),
            MongoOutcome::Failed(e) => MongoOutcome::Failed(e),
            MongoOutcome::BsonRejected => MongoOutcome::BsonRejected,
            MongoOutcome::OutOfBounds => MongoOutcome::OutOfBounds,
        },
{
}

/// Reads the kind byte at byte `index` of `buffer`, then the section it
/// starts.
fn read_next_section(buffer: &[u8], index: usize) -> (res: ParseOutcome<(Section, usize)>)
    requires
        index <= buffer@.len(),
    ensures
        outcome_agrees(
            res,
            next_section_at(buffer@, index as int),
            |r: (Section, usize)| (section_model(r.0), r.1 as int),
        ),
{
    let (kind, offset) = match parse_u8(
        &buffer[index..buffer.len()],
        ImmuxError::MongoParser(MongoParserError::NotEnoughBufferSize),
    ) {
        Ok(v) => v,
        Err(e) => {
            return ParseOutcome::Failed(e);
        },
    };
    read_section(buffer, kind, index + offset)
}

/// Reads the flag word, the sections and the checksum of a message whose
/// header is `message_header`.
fn read_op_msg(message_header: MsgHeader, buffer: &[u8]) -> (res: ParseOutcome<OpMsg>)
    ensures
        outcome_agrees(res, op_msg_at(message_header, buffer@), |m: OpMsg| op_msg_model(m)),
{
    let mut index: usize = 0;
    let (flags_bits_vec, offset) = match parse_u32(
        buffer,
        ImmuxError::MongoParser(MongoParserError::NotEnoughBufferSize),
    ) {
        Ok(v) => v,
        Err(e) => {
            return ParseOutcome::Failed(e);
        },
    };
    index += offset;
    let check_sum_present = get_bit_u32(flags_bits_vec, CHECK_SUM_PRESENT_DIGIT);
    let more_to_come = get_bit_u32(flags_bits_vec, MORE_TO_COME_DIGIT);
    let exhaust_allowed = get_bit_u32(flags_bits_vec, EXHAUST_ALLOWED_DIGIT);
    let flags = OpMsgFlags { check_sum_present, more_to_come, exhaust_allowed };
    assert(flags == op_msg_flags_of(le_u32_value(buffer@) as u32));
    let mut sections: Vec<Section> = Vec::new();
    loop
        invariant_except_break
            4 <= index <= buffer@.len(),
            check_sum_present == op_msg_flags_of(le_u32_value(buffer@) as u32).check_sum_present,
            op_msg_sections_at(buffer@, check_sum_present, 4) == prepend_sections(
                sections_view(sections@),
                op_msg_sections_at(buffer@, check_sum_present, index as int),
            ),
        ensures
            4 <= index <= buffer@.len(),
            sections_end_at(buffer@, check_sum_present, index as int),
            op_msg_sections_at(buffer@, check_sum_present, 4) == MongoOutcome::Parsed::<
                (Seq<SectionModel>, int),
            >((sections_view(sections@), index as int)),
        decreases buffer@.len() - index,
    {
        if (check_sum_present && buffer.len() - index == 4) || (!check_sum_present && index
            == buffer.len()) {
            assert(sections_view(sections@) + Seq::<SectionModel>::empty() =~= sections_view(
                sections@,
            ));
            break;
        }
        proof {
            lemma_sections_step(buffer@, check_sum_present, index as int);
            if index < buffer.len() {
                lemma_section_advances(buffer@, buffer@[index as int], index + 1);
            }
        }
        match read_next_section(buffer, index) {
            ParseOutcome::Parsed((section, end)) => {
                let ghost before = sections_view(sections@);
                sections.push(section);
                assert(sections_view(sections@) =~= before + seq![section_model(section)]);
                proof {
                    match op_msg_sections_at(buffer@, check_sum_present, end as int) {
                        MongoOutcome::Parsed((rest, e)) => {
                            assert(before + (seq![section_model(section)] + rest) =~= sections_view(
                                sections@,
                            ) + rest);
                        },
                        _ => {},
                    }
                }
                index = end;
            },
            ParseOutcome::Failed(e) => {
                return ParseOutcome::Failed(e);
            },
            ParseOutcome::OutOfBounds => {
                return ParseOutcome::OutOfBounds;
            },
        }
    }
    let checksum = if check_sum_present {
        let (value, _) = match parse_u32(
            &buffer[index..buffer.len()],
            ImmuxError::MongoParser(MongoParserError::NotEnoughBufferSize),
        ) {
            Ok(v) => v,
            Err(e) => {
                return ParseOutcome::Failed(e);
            },
        };
        assert(buffer@.subrange(index as int, buffer@.len() as int) =~= buffer@.skip(index as int));
        Some(value)
    } else {
        None
    };
    ParseOutcome::Parsed(OpMsg { message_header, flags, sections, checksum })
}

/// The inputs on which reading a message runs past the end of its buffer
/// or would never end: a length or size that announces more bytes than
/// there are.
pub open spec fn op_msg_out_of_bounds(message_header: MsgHeader, buffer: Seq<u8>) -> bool {
    op_msg_at(message_header, buffer) is OutOfBounds
}

/// Reads the body of a message whose header is `message_header`: the flag
/// word, the sections and, when the flags announce one, the checksum.
/// A short buffer gives `NotEnoughBufferSize`, an unterminated identifier
/// `ParseStringError`, an unknown section kind `UnknownSectionKind`, and a
/// document the BSON decoder rejects `ParseBsonError`. The caller owes a
/// buffer that holds every length and size it announces.
pub fn parse_op_msg(message_header: MsgHeader, buffer: &[u8]) -> (res: ImmuxResult<OpMsg>)
    requires
        !op_msg_out_of_bounds(message_header, buffer@),
    ensures
        result_agrees(res, op_msg_at(message_header, buffer@), |m: OpMsg| op_msg_model(m)),
{
    match read_op_msg(message_header, buffer) {
        ParseOutcome::Parsed(op_msg) => Ok(op_msg),
        ParseOutcome::Failed(e) => Err(e),
        ParseOutcome::OutOfBounds => Err(ImmuxError::MongoParser(MongoParserError::InputBufferError)),
    }
}

/// Whether reading the message stays inside its buffer.
pub fn op_msg_is_in_bounds(message_header: MsgHeader, buffer: &[u8]) -> (res: bool)
    ensures
        res == !op_msg_out_of_bounds(message_header, buffer@),
{
    match read_op_msg(message_header, buffer) {
        ParseOutcome::OutOfBounds => false,
        _ => true,
    }
}

/// Reads the message where reading stays inside its buffer, and gives
/// nothing where it would not.
pub fn try_parse_op_msg(message_header: MsgHeader, buffer: &[u8]) -> (res: Option<
    ImmuxResult<OpMsg>,
>)
    ensures
        res is None <==> op_msg_out_of_bounds(message_header, buffer@),
        res matches Some(r) ==> result_agrees(
            r,
            op_msg_at(message_header, buffer@),
            |m: OpMsg| op_msg_model(m),
        ),
{
    if op_msg_is_in_bounds(message_header, buffer) {
        Some(parse_op_msg(message_header, buffer))
    } else {
        None
    }
}

/// Byte strings one after another.
pub open spec fn concat_bytes(parts: Seq<Seq<u8>>) -> Seq<u8>
    decreases parts.len(),
{
    if parts.len() == 0 {
        Seq::empty()
    } else {
        concat_bytes(parts.drop_last()) + parts.last()
    }
}

/// The bytes written for a section: its kind byte, then the document, or the
/// size, the NUL-terminated identifier and the documents.
pub open spec fn section_bytes(s: SectionModel) -> Seq<u8> {
    match s {
        SectionModel::Single(doc) => seq![SINGLE_TYPE] + doc,
        SectionModel::Sequence(section_size, identifier, docs) => seq![SEQUENCE_TYPE]
            + u32_le_bytes(section_size) + encode_utf8(identifier) + seq![0u8] + concat_bytes(docs),
    }
}

/// The bytes written for sections, one after another.
pub open spec fn sections_bytes(sections: Seq<SectionModel>) -> Seq<u8>
    decreases sections.len(),
{
    if sections.len() == 0 {
        Seq::empty()
    } else {
        sections_bytes(sections.drop_last()) + section_bytes(sections.last())
    }
}

/// The bytes written for a message: the header, the flag word and the
/// sections; no checksum is written.
pub open spec fn op_msg_bytes(m: OpMsgModel) -> Seq<u8> {
    msg_header_bytes(m.message_header) + u32_le_bytes(op_msg_flags_word(m.flags)) + sections_bytes(
        m.sections,
    )
}

/// Appends the bytes of one section.
fn write_section(res: &mut Vec<u8>, section: &Section)
    ensures
        final(res)@ == old(res)@ + section_bytes(section_model(*section)),
{
    match section {
        Section::Single(doc) => {
            res.push(SINGLE_TYPE);
            append_bytes(res, doc.bytes.as_slice());
        },
        Section::Sequence(document_sequence) => {
            res.push(SEQUENCE_TYPE);
            append_bytes(res, &u32_to_u8_array(document_sequence.section_size));
            append_str(res, document_sequence.identifier.as_str());
            res.push(0x00);
            let ghost before_docs = res@;
            let docs = &document_sequence.documents;
            let mut i: usize = 0;
            while i < docs.len()
                invariant
                    i <= docs@.len(),
                    res@ == before_docs + concat_bytes(documents_view(docs@).take(i as int)),
                decreases docs@.len() - i,
            {
                append_bytes(res, docs[i].bytes.as_slice());
                assert(documents_view(docs@).take(i + 1).drop_last() =~= documents_view(docs@).take(
                    i as int,
                ));
                i = i + 1;
            }
            assert(documents_view(docs@).take(docs@.len() as int) =~= documents_view(docs@));
        },
    }
    assert(res@ =~= old(res)@ + section_bytes(section_model(*section)));
}

/// Writes the message: the header, the flag word and the sections, in
/// order; the checksum is not written. Each document is written as the
/// bytes it is kept in, which are the bytes it was read from: a document
/// whose bytes are not the bson crate's own encoding of what they decode to
/// (a repeated key, say) is written back unchanged, not encoded anew.
pub fn serialize_op_msg(op_msg: &OpMsg) -> (res: ImmuxResult<Vec<u8>>)
    ensures
        res matches Ok(v) && v@ == op_msg_bytes(op_msg_model(*op_msg)),
{
    let mut res_buffer = serialize_msg_header(&op_msg.message_header);
    let mut flag_bits: u32 = 0;
    set_bit_u32(&mut flag_bits, CHECK_SUM_PRESENT_DIGIT, op_msg.flags.check_sum_present);
    set_bit_u32(&mut flag_bits, MORE_TO_COME_DIGIT, op_msg.flags.more_to_come);
    set_bit_u32(&mut flag_bits, EXHAUST_ALLOWED_DIGIT, op_msg.flags.exhaust_allowed);
    append_bytes(&mut res_buffer, &u32_to_u8_array(flag_bits));
    let ghost head = res_buffer@;
    let sections = &op_msg.sections;
    let mut i: usize = 0;
    while i < sections.len()
        invariant
            i <= sections@.len(),
            res_buffer@ == head + sections_bytes(sections_view(sections@).take(i as int)),
        decreases sections@.len() - i,
    {
        write_section(&mut res_buffer, &sections[i]);
        assert(sections_view(sections@).take(i + 1).drop_last() =~= sections_view(sections@).take(
            i as int,
        ));
        i = i + 1;
    }
    assert(sections_view(sections@).take(sections@.len() as int) =~= sections_view(sections@));
    Ok(res_buffer)
}

/// Putting a document in front of others puts its bytes in front.
pub proof fn lemma_concat_bytes_prepend(d: Seq<u8>, docs: Seq<Seq<u8>>)
    ensures
        concat_bytes(seq![d] + docs) == d + concat_bytes(docs),
    decreases docs.len(),
{
    let s = seq![d] + docs;
    if docs.len() == 0 {
        assert(s.drop_last() =~= Seq::<Seq<u8>>::empty());
        assert(concat_bytes(s) == concat_bytes(s.drop_last()) + s.last());
        assert(concat_bytes(s) =~= d + concat_bytes(docs));
    } else {
        lemma_concat_bytes_prepend(d, docs.drop_last());
        assert(s.drop_last() =~= seq![d] + docs.drop_last());
        assert(s.last() == docs.last());
        assert(concat_bytes(s) == concat_bytes(s.drop_last()) + s.last());
        assert(concat_bytes(docs) == concat_bytes(docs.drop_last()) + docs.last());
        assert(concat_bytes(s) =~= d + concat_bytes(docs));
    }
}

/// Putting a section in front of others puts its bytes in front.
pub proof fn lemma_sections_bytes_prepend(x: SectionModel, rest: Seq<SectionModel>)
    ensures
        sections_bytes(seq![x] + rest) == section_bytes(x) + sections_bytes(rest),
    decreases rest.len(),
{
    let s = seq![x] + rest;
    if rest.len() == 0 {
        assert(s.drop_last() =~= Seq::<SectionModel>::empty());
        assert(sections_bytes(s) == sections_bytes(s.drop_last()) + section_bytes(s.last()));
        assert(sections_bytes(s) =~= section_bytes(x) + sections_bytes(rest));
    } else {
        lemma_sections_bytes_prepend(x, rest.drop_last());
        assert(s.drop_last() =~= seq![x] + rest.drop_last());
        assert(s.last() == rest.last());
        assert(sections_bytes(s) == sections_bytes(s.drop_last()) + section_bytes(s.last()));
        assert(sections_bytes(rest) == sections_bytes(rest.drop_last()) + section_bytes(
            rest.last(),
        ));
        assert(sections_bytes(s) =~= section_bytes(x) + sections_bytes(rest));
    }
}

/// The documents of a sequence read from byte `i` on are the bytes from `i`
/// to where reading ended.
pub proof fn lemma_document_sequence_bytes(b: Seq<u8>, i: int, remaining: int)
    requires
        0 <= i <= b.len(),
        document_sequence_at(b, i, remaining) is Parsed,
    ensures
        document_sequence_at(b, i, remaining) matches MongoOutcome::Parsed((docs, end)) && i <= end
            <= b.len() && concat_bytes(docs) == b.subrange(i, end),
    decreases remaining,
{
    if remaining <= 0 {
        assert(b.subrange(i, i) =~= Seq::<u8>::empty());
    } else {
        let size = bson_size_at(b.skip(i));
        lemma_document_sequence_bytes(b, i + size, remaining - size);
        let (rest, end) = document_sequence_at(b, i + size, remaining - size)->Parsed_0;
        lemma_concat_bytes_prepend(b.subrange(i, i + size), rest);
        assert(b.subrange(i, i + size) + b.subrange(i + size, end) =~= b.subrange(i, end));
    }
}

/// A section read after its kind byte at `j - 1` is written back as the
/// bytes it was read from, kind byte included.
pub proof fn lemma_section_bytes(b: Seq<u8>, j: int)
    requires
        1 <= j <= b.len(),
        section_at(b, b[j - 1], j) is Parsed,
    ensures
        section_at(b, b[j - 1], j) matches MongoOutcome::Parsed((s, k)) && j <= k <= b.len()
            && section_bytes(s) == b.subrange(j - 1, k),
{
    let kind = b[j - 1];
    lemma_section_advances(b, kind, j);
    if kind == SINGLE_TYPE {
        let size = bson_size_at(b.skip(j));
        assert(seq![kind] + b.subrange(j, j + size) =~= b.subrange(j - 1, j + size));
    } else {
        let section_size = le_u32_value(b.skip(j)) as u32;
        let (identifier, n) = cstring_at(b.skip(j + 4))->Some_0;
        let t = b.skip(j + 4);
        let z = n - 1;
        let prefix = t.take(z);
        assert(is_first_zero(t, choose|u: int| is_first_zero(t, u)));
        assert(is_first_zero(t, z));
        decode_utf8_encode_utf8(prefix);
        assert(encode_utf8(identifier) + seq![0u8] =~= b.subrange(j + 4, j + 4 + n));
        assert(le_u32_value(b.subrange(j, j + 4)) == le_u32_value(b.skip(j)));
        lemma_u32_le_bytes_of_value(b.subrange(j, j + 4));
        lemma_document_sequence_bytes(b, j + 4 + n, section_size - 4 - n);
        let (docs, k) = document_sequence_at(b, j + 4 + n, section_size - 4 - n)->Parsed_0;
        assert(seq![kind] + b.subrange(j, j + 4) + b.subrange(j + 4, j + 4 + n) + b.subrange(
            j + 4 + n,
            k,
        ) =~= b.subrange(j - 1, k));
    }
}

/// Sections read from byte `i` on, when no checksum follows them, are
/// written back as the bytes from `i` to the end.
pub proof fn lemma_sections_roundtrip(b: Seq<u8>, i: int)
    requires
        0 <= i <= b.len(),
        op_msg_sections_at(b, false, i) is Parsed,
    ensures
        op_msg_sections_at(b, false, i) matches MongoOutcome::Parsed((secs, end)) && end == b.len()
            && sections_bytes(secs) == b.subrange(i, b.len() as int),
    decreases b.len() - i,
{
    if i == b.len() {
        assert(b.subrange(i, i) =~= Seq::<u8>::empty());
    } else {
        lemma_section_bytes(b, i + 1);
        let (x, k) = section_at(b, b[i], i + 1)->Parsed_0;
        lemma_sections_roundtrip(b, k);
        let (rest, end) = op_msg_sections_at(b, false, k)->Parsed_0;
        lemma_sections_bytes_prepend(x, rest);
        assert(b.subrange(i, k) + b.subrange(k, b.len() as int) =~= b.subrange(i, b.len() as int));
    }
}

/// A flag word that carries no bits but the three flags is written back as
/// it was read.
pub proof fn lemma_op_msg_flags_word_of(word: u32)
    requires
        word & 0xfffe_fffc == 0,
    ensures
        op_msg_flags_word(op_msg_flags_of(word)) == word,
{
    reveal(bit_u32);
    reveal(with_bit_u32);
    let b0 = (word >> 0u32) & 1u32 == 1u32;
    let b1 = (word >> 1u32) & 1u32 == 1u32;
    let b16 = (word >> 16u32) & 1u32 == 1u32;
    let x0: u32 = if b0 {
        0u32 | (1u32 << 0u32)
    } else {
        0u32 & !(1u32 << 0u32)
    };
    let x1: u32 = if b1 {
        x0 | (1u32 << 1u32)
    } else {
        x0 & !(1u32 << 1u32)
    };
    let x2: u32 = if b16 {
        x1 | (1u32 << 16u32)
    } else {
        x1 & !(1u32 << 16u32)
    };
    assert(x2 == word) by (bit_vector)
        requires
            word & 0xfffe_fffc == 0,
            b0 == ((word >> 0u32) & 1u32 == 1u32),
            b1 == ((word >> 1u32) & 1u32 == 1u32),
            b16 == ((word >> 16u32) & 1u32 == 1u32),
            x0 == (if b0 {
                0u32 | (1u32 << 0u32)
            } else {
                0u32 & !(1u32 << 0u32)
            }),
            x1 == (if b1 {
                x0 | (1u32 << 1u32)
            } else {
                x0 & !(1u32 << 1u32)
            }),
            x2 == (if b16 {
                x1 | (1u32 << 16u32)
            } else {
                x1 & !(1u32 << 16u32)
            }),
    ;
}

/// Writing back a message that was read, whose flag word carries no bits
/// but `more_to_come` and `exhaust_allowed` (so no checksum follows the
/// sections), gives back the header and the bytes it was read from.
pub proof fn lemma_op_msg_roundtrip(header: MsgHeader, b: Seq<u8>)
    requires
        op_msg_at(header, b) is Parsed,
        le_u32_value(b) as u32 & 0xfffe_fffd == 0,
    ensures
        op_msg_at(header, b) matches MongoOutcome::Parsed(m) && op_msg_bytes(m) == msg_header_bytes(
            header,
        ) + b,
{
    let word = le_u32_value(b) as u32;
    assert(word & 0xfffe_fffc == 0 && ((word >> 0u32) & 1u32 == 1u32) == false) by (bit_vector)
        requires
            word & 0xfffe_fffd == 0,
    ;
    lemma_op_msg_flags_word_of(word);
    reveal(bit_u32);
    assert(!op_msg_flags_of(word).check_sum_present);
    lemma_sections_roundtrip(b, 4);
    assert(le_u32_value(b.take(4)) == le_u32_value(b));
    lemma_u32_le_bytes_of_value(b.take(4));
    assert(b.take(4) + b.subrange(4, b.len() as int) =~= b);
}

} // verus!
