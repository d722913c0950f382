//! Checks made by the QMDL fuzzing harness: which inputs and containers it
//! processes, which messages it hands on, and how the output of the current
//! diagnostic parser is compared with that of the previous one.
//!
//! Parsing itself happens outside the library; the parsed values reach it as
//! the plain views below. Where a value is compared by its `Debug` text, the
//! view holds that text as bytes.
use vstd::prelude::*;

verus! {

/// Inputs longer than this many bytes (50 MiB) are not processed.
pub const MAX_FUZZ_INPUT_LEN: usize = 52428800;

/// Whether the harness processes an input of `len` bytes.
pub fn fuzz_input_accepted(len: usize) -> (accepted: bool)
    ensures
        accepted == (len <= MAX_FUZZ_INPUT_LEN),
{
    len <= MAX_FUZZ_INPUT_LEN
}

/// The data type of a messages container in a QMDL file.
#[derive(Copy, Clone, Debug, PartialEq, Eq, Structural)]
pub enum DataType {
    UserSpace,
    Other(u32),
}

/// Whether the messages of a container of `data_type` are processed
/// (only user-space containers are).
pub fn is_processed_container(data_type: DataType) -> (processed: bool)
    ensures
        processed == (data_type == DataType::UserSpace),
{
    match data_type {
        DataType::UserSpace => true,
        DataType::Other(_) => false,
    }
}

/// A messages container whose messages were encoded back to bytes, one entry
/// per message in order, `None` where encoding failed.
pub struct EncodedContainer {
    pub data_type: DataType,
    pub messages: Vec<Option<Vec<u8>>>,
}

/// The bytes of the messages of `messages` whose encoding succeeded, in order.
pub open spec fn encoded_bytes(messages: Seq<Option<Vec<u8>>>) -> Seq<Seq<u8>>
    decreases messages.len(),
{
    if messages.len() == 0 {
        Seq::empty()
    } else {
        let rest = encoded_bytes(messages.drop_last());
        match messages.last() {
            Some(bytes) => rest.push(bytes@),
            None => rest,
        }
    }
}

/// The messages that splitting hands on from one container: those of a
/// user-space container whose encoding succeeded, in order; none of any other.
pub open spec fn split_container(container: EncodedContainer) -> Seq<Seq<u8>> {
    if container.data_type == DataType::UserSpace {
        encoded_bytes(container.messages@)
    } else {
        Seq::empty()
    }
}

/// Splitting hands on every successfully encoded message, whatever its
/// length, and only those, in order: a message appended to the container adds
/// its bytes at the end of what is handed on, a failed encoding adds nothing,
/// and the messages of two runs of entries are those of the first followed by
/// those of the second.
pub proof fn lemma_encoded_bytes_append(s: Seq<Option<Vec<u8>>>, t: Seq<Option<Vec<u8>>>, bytes: Vec<u8>)
    ensures
        encoded_bytes(Seq::empty()).len() == 0,
        encoded_bytes(s.push(Some(bytes))) == encoded_bytes(s).push(bytes@),
        encoded_bytes(s.push(None)) == encoded_bytes(s),
        encoded_bytes(s + t) == encoded_bytes(s) + encoded_bytes(t),
        encoded_bytes(s).len() <= s.len(),
    decreases t.len(), s.len(),
{
    assert(s.push(Some(bytes)).drop_last() =~= s);
    assert(s.push(None).drop_last() =~= s);
    if t.len() == 0 {
        assert(s + t =~= s);
        assert(encoded_bytes(t) =~= Seq::<Seq<u8>>::empty());
        assert(encoded_bytes(s) + encoded_bytes(t) =~= encoded_bytes(s));
    } else {
        lemma_encoded_bytes_append(s, t.drop_last(), bytes);
        assert((s + t).drop_last() =~= s + t.drop_last());
        assert((s + t).last() == t.last());
        match t.last() {
            Some(b) => {
                assert(encoded_bytes(s) + encoded_bytes(t.drop_last()).push(b@) =~= (encoded_bytes(s)
                    + encoded_bytes(t.drop_last())).push(b@));
            },
            None => {},
        }
    }
    if s.len() > 0 {
        lemma_encoded_bytes_append(s.drop_last(), Seq::empty(), bytes);
    }
}

/// A container that is not user-space hands on nothing; a user-space
/// container hands on the encoded messages of all its entries.
pub proof fn lemma_split_container(container: EncodedContainer)
    ensures
        container.data_type != DataType::UserSpace ==> split_container(container).len() == 0,
        container.data_type == DataType::UserSpace ==> split_container(container) == encoded_bytes(
            container.messages@,
        ),
        forall|bytes: Vec<u8>|
            container.messages@ == seq![Some(bytes)] && container.data_type == DataType::UserSpace
                ==> #[trigger] split_container(container).len() == 1 && split_container(container)[0]
                == bytes@,
{
    assert forall|bytes: Vec<u8>|
        container.messages@ == seq![Some(bytes)] && container.data_type == DataType::UserSpace
            implies #[trigger] split_container(container).len() == 1 && split_container(container)[0]
            == bytes@ by {
        lemma_encoded_bytes_append(Seq::empty(), Seq::empty(), bytes);
        assert(Seq::<Option<Vec<u8>>>::empty().push(Some(bytes)) =~= container.messages@);
        assert(encoded_bytes(Seq::<Option<Vec<u8>>>::empty()) =~= Seq::<Seq<u8>>::empty());
    }
}

/// The messages of `container` that splitting hands on, in order.
pub fn container_messages(container: &EncodedContainer) -> (out: Vec<Vec<u8>>)
    ensures
        out@.len() == split_container(*container).len(),
        forall|i: int| 0 <= i < out@.len() ==> #[trigger] out@[i]@ == split_container(*container)[i],
{
    let mut out: Vec<Vec<u8>> = Vec::new();
    if !is_processed_container(container.data_type) {
        return out;
    }
    let n = container.messages.len();
    for i in 0..n
        invariant
            n == container.messages@.len(),
            container.data_type == DataType::UserSpace,
            out@.len() == encoded_bytes(container.messages@.take(i as int)).len(),
            forall|j: int|
                0 <= j < out@.len() ==> #[trigger] out@[j]@ == encoded_bytes(
                    container.messages@.take(i as int),
                )[j],
    {
        let ghost before = container.messages@.take(i as int);
        assert(container.messages@.take(i + 1).drop_last() =~= before);
        match &container.messages[i] {
            Some(bytes) => {
                let copy = bytes.clone();
                assert(copy@ =~= bytes@);
                out.push(copy);
            },
            None => {},
        }
    }
    assert(container.messages@.take(n as int) =~= container.messages@);
    out
}

/// Whether two byte strings are equal.
pub fn bytes_equal(a: &[u8], b: &[u8]) -> (equal: bool)
    ensures
        equal == (a@ == b@),
{
    if a.len() != b.len() {
        return false;
    }
    let n = a.len();
    for i in 0..n
        invariant
            n == a@.len(),
            n == b@.len(),
            forall|j: int| 0 <= j < i ==> a@[j] == b@[j],
    {
        if a[i] != b[i] {
            return false;
        }
    }
    assert(a@ =~= b@);
    true
}

/// The fields of a 4G NAS log body that are compared.
pub struct Nas4GFields {
    /// `Debug` text of the message direction.
    pub direction: Vec<u8>,
    pub ext_header_version: u8,
    pub rrc_rel: u8,
    pub rrc_version_minor: u8,
    pub rrc_version_major: u8,
    pub msg: Vec<u8>,
}

/// A log body as the comparison sees it.
pub struct LogBodyView {
    /// The compared fields, where the body is a 4G NAS message.
    pub nas4g: Option<Nas4GFields>,
    /// `Debug` text of the whole body.
    pub debug: Vec<u8>,
}

/// The fields of a log message that are compared.
pub struct LogRecord {
    pub pending_msgs: u8,
    pub outer_length: u16,
    pub inner_length: u16,
    pub log_type: u16,
    pub timestamp: u64,
    pub body: LogBodyView,
}

/// A message from the current parser.
pub enum NewMessage {
    Log(LogRecord),
    /// A response, whose opcode comes as four little-endian bytes.
    Response {
        opcode1: u8,
        opcode2: u8,
        opcode3: u8,
        opcode4: u8,
        subopcode: u32,
        status: u32,
        /// `Debug` text of the payload.
        payload: Vec<u8>,
    },
}

/// A message from the previous parser.
pub enum OldMessage {
    Log(LogRecord),
    Response {
        opcode: u32,
        subopcode: u32,
        status: u32,
        /// `Debug` text of the payload.
        payload: Vec<u8>,
    },
}

/// Two 4G NAS bodies agree when direction, header version, RRC release and
/// version, and message bytes agree.
pub open spec fn nas4g_agree(new: Nas4GFields, old: Nas4GFields) -> bool {
    &&& new.direction@ == old.direction@
    &&& new.ext_header_version == old.ext_header_version
    &&& new.rrc_rel == old.rrc_rel
    &&& new.rrc_version_minor == old.rrc_version_minor
    &&& new.rrc_version_major == old.rrc_version_major
    &&& new.msg@ == old.msg@
}

/// Two log bodies agree: field by field where both are 4G NAS messages,
/// by their `Debug` text otherwise.
pub open spec fn log_bodies_agree(new: LogBodyView, old: LogBodyView) -> bool {
    match (new.nas4g, old.nas4g) {
        (Some(n), Some(o)) => nas4g_agree(n, o),
        _ => new.debug@ == old.debug@,
    }
}

/// The number whose little-endian bytes are `b1, b2, b3, b4`.
pub open spec fn u32_from_le(b1: u8, b2: u8, b3: u8, b4: u8) -> int {
    b1 + 0x100 * b2 + 0x10000 * b3 + 0x1000000 * b4
}

/// Two log messages agree when all header fields, the timestamp and the bodies agree.
pub open spec fn log_records_agree(new: LogRecord, old: LogRecord) -> bool {
    &&& new.pending_msgs == old.pending_msgs
    &&& new.outer_length == old.outer_length
    &&& new.inner_length == old.inner_length
    &&& new.log_type == old.log_type
    &&& new.timestamp == old.timestamp
    &&& log_bodies_agree(new.body, old.body)
}

/// A message of the current parser agrees with one of the previous parser:
/// both logs that agree, or both responses with the same opcode, subopcode,
/// status and payload text.
pub open spec fn messages_agree(new: NewMessage, old: OldMessage) -> bool {
    match (new, old) {
        (NewMessage::Log(n), OldMessage::Log(o)) => log_records_agree(n, o),
        (
            NewMessage::Response { opcode1, opcode2, opcode3, opcode4, subopcode, status, payload },
            OldMessage::Response {
                opcode: old_opcode,
                subopcode: old_subopcode,
                status: old_status,
                payload: old_payload,
            },
        ) => {
            &&& u32_from_le(opcode1, opcode2, opcode3, opcode4) == old_opcode
            &&& subopcode == old_subopcode
            &&& status == old_status
            &&& payload@ == old_payload@
        },
        _ => false,
    }
}

/// The opcode read from four little-endian bytes gives back each byte:
/// the lowest byte first, the highest last.
pub proof fn lemma_u32_from_le(b1: u8, b2: u8, b3: u8, b4: u8)
    ensures
        0 <= u32_from_le(b1, b2, b3, b4) <= u32::MAX,
        u32_from_le(b1, b2, b3, b4) % 256 == b1,
        (u32_from_le(b1, b2, b3, b4) / 256) % 256 == b2,
        (u32_from_le(b1, b2, b3, b4) / 65536) % 256 == b3,
        u32_from_le(b1, b2, b3, b4) / 16777216 == b4,
{
}

/// Two 4G NAS log bodies agree exactly when each of the six compared fields
/// is equal; any other pair of bodies agrees exactly when their `Debug` texts
/// are equal. A body always agrees with an identical one.
pub proof fn lemma_log_bodies_agree(new: LogBodyView, old: LogBodyView)
    ensures
        new.nas4g is Some && old.nas4g is Some ==> {
            let n = new.nas4g->0;
            let o = old.nas4g->0;
            log_bodies_agree(new, old) <==> (n.direction@ == o.direction@ && n.ext_header_version
                == o.ext_header_version && n.rrc_rel == o.rrc_rel && n.rrc_version_minor
                == o.rrc_version_minor && n.rrc_version_major == o.rrc_version_major && n.msg@
                == o.msg@)
        },
        (new.nas4g is None || old.nas4g is None) ==> (log_bodies_agree(new, old) <==> new.debug@
            == old.debug@),
        log_bodies_agree(new, new),
{
}

/// Two log messages agree exactly when pending count, both lengths, log type
/// and timestamp are equal and the bodies agree. Two responses agree exactly
/// when the new opcode bytes, read little-endian, give the old opcode, and
/// subopcode, status and payload text are equal. A log never agrees with a
/// response.
pub proof fn lemma_messages_agree(new: NewMessage, old: OldMessage)
    ensures
        new is Log && old is Log ==> {
            let n = new->0;
            let o = old->0;
            messages_agree(new, old) <==> (n.pending_msgs == o.pending_msgs && n.outer_length
                == o.outer_length && n.inner_length == o.inner_length && n.log_type == o.log_type
                && n.timestamp == o.timestamp && log_bodies_agree(n.body, o.body))
        },
        new is Response && old is Response ==> (messages_agree(new, old) <==> (old->opcode
            == new->opcode1 + 256 * new->opcode2 + 65536 * new->opcode3 + 16777216 * new->opcode4
            && new->subopcode == old->subopcode && new->status == old->status && new->payload@
            == old->payload@)),
        (new is Log && old is Response) ==> !messages_agree(new, old),
        (new is Response && old is Log) ==> !messages_agree(new, old),
{
}

/// A log record agrees with itself: comparing the same record as parsed by
/// both parsers never reports a discrepancy.
pub proof fn lemma_log_record_agrees_with_itself(r: LogRecord)
    ensures
        messages_agree(NewMessage::Log(r), OldMessage::Log(r)),
{
    lemma_log_bodies_agree(r.body, r.body);
}

/// The number whose little-endian bytes are `b1, b2, b3, b4`.
pub fn u32_from_le_bytes(b1: u8, b2: u8, b3: u8, b4: u8) -> (v: u32)
    ensures
        v == u32_from_le(b1, b2, b3, b4),
{
    b1 as u32 + 0x100 * (b2 as u32) + 0x10000 * (b3 as u32) + 0x1000000 * (b4 as u32)
}

/// Whether two log bodies agree.
pub fn log_bodies_equal(new: &LogBodyView, old: &LogBodyView) -> (equal: bool)
    ensures
        equal == log_bodies_agree(*new, *old),
{
    match (&new.nas4g, &old.nas4g) {
        (Some(n), Some(o)) => {
            bytes_equal(n.direction.as_slice(), o.direction.as_slice())
                && n.ext_header_version == o.ext_header_version && n.rrc_rel == o.rrc_rel
                && n.rrc_version_minor == o.rrc_version_minor && n.rrc_version_major
                == o.rrc_version_major && bytes_equal(n.msg.as_slice(), o.msg.as_slice())
        },
        _ => bytes_equal(new.debug.as_slice(), old.debug.as_slice()),
    }
}

/// Whether a message of the current parser agrees with one of the previous parser.
pub fn messages_equal(new: &NewMessage, old: &OldMessage) -> (equal: bool)
    ensures
        equal == messages_agree(*new, *old),
{
    match (new, old) {
        (NewMessage::Log(n), OldMessage::Log(o)) => {
            n.pending_msgs == o.pending_msgs && n.outer_length == o.outer_length
                && n.inner_length == o.inner_length && n.log_type == o.log_type && n.timestamp
                == o.timestamp && log_bodies_equal(&n.body, &o.body)
        },
        (
            NewMessage::Response { opcode1, opcode2, opcode3, opcode4, subopcode, status, payload },
            OldMessage::Response {
                opcode: old_opcode,
                subopcode: old_subopcode,
                status: old_status,
                payload: old_payload,
            },
        ) => {
            u32_from_le_bytes(*opcode1, *opcode2, *opcode3, *opcode4) == *old_opcode && *subopcode
                == *old_subopcode && *status == *old_status && bytes_equal(
                payload.as_slice(),
                old_payload.as_slice(),
            )
        },
        _ => false,
    }
}

/// What a parser made of an input: the number of bytes it left unread and the
/// message, or `None` where it failed.
pub type NewParse = Option<(usize, NewMessage)>;

/// What the previous parser made of an input, as [`NewParse`].
pub type OldParse = Option<(usize, OldMessage)>;

/// How the two parsers compare on one input.
#[derive(Copy, Clone, Debug, PartialEq, Eq, Structural)]
pub enum DifferentialVerdict {
    /// Both parsed, left the same number of bytes and agree on the message.
    Agree,
    /// Both failed; error texts are not compared.
    BothFailed,
    /// Both parsed but left different numbers of bytes unread.
    RemainingDiffers { new_remaining: usize, old_remaining: usize },
    /// Both parsed and left as many bytes, but the messages disagree.
    MessagesDiffer,
    /// The current parser succeeded where the previous one failed.
    OnlyNewParsed,
    /// The previous parser succeeded where the current one failed.
    OnlyOldParsed,
}

/// The verdict on the two parsers' results for one input.
pub open spec fn differential_verdict(new: NewParse, old: OldParse) -> DifferentialVerdict {
    match (new, old) {
        (Some((new_rest, new_msg)), Some((old_rest, old_msg))) => if new_rest != old_rest {
            DifferentialVerdict::RemainingDiffers {
                new_remaining: new_rest,
                old_remaining: old_rest,
            }
        } else if !messages_agree(new_msg, old_msg) {
            DifferentialVerdict::MessagesDiffer
        } else {
            DifferentialVerdict::Agree
        },
        (Some(_), None) => DifferentialVerdict::OnlyNewParsed,
        (None, Some(_)) => DifferentialVerdict::OnlyOldParsed,
        (None, None) => DifferentialVerdict::BothFailed,
    }
}

/// Whether a verdict is a discrepancy that the harness reports as a crash:
/// every verdict but agreement and common failure.
pub open spec fn is_discrepancy(verdict: DifferentialVerdict) -> bool {
    !(verdict == DifferentialVerdict::Agree || verdict == DifferentialVerdict::BothFailed)
}

/// Compares the results of the current and the previous parser on one input.
pub fn compare_parses(new: &NewParse, old: &OldParse) -> (verdict: DifferentialVerdict)
    ensures
        verdict == differential_verdict(*new, *old),
{
    match (new, old) {
        (Some((new_rest, new_msg)), Some((old_rest, old_msg))) => {
            if *new_rest != *old_rest {
                DifferentialVerdict::RemainingDiffers {
                    new_remaining: *new_rest,
                    old_remaining: *old_rest,
                }
            } else if !messages_equal(new_msg, old_msg) {
                DifferentialVerdict::MessagesDiffer
            } else {
                DifferentialVerdict::Agree
            }
        },
        (Some(_), None) => DifferentialVerdict::OnlyNewParsed,
        (None, Some(_)) => DifferentialVerdict::OnlyOldParsed,
        (None, None) => DifferentialVerdict::BothFailed,
    }
}

/// Whether `verdict` is reported as a crash.
pub fn verdict_is_discrepancy(verdict: DifferentialVerdict) -> (report: bool)
    ensures
        report == is_discrepancy(verdict),
{
    match verdict {
        DifferentialVerdict::Agree => false,
        DifferentialVerdict::BothFailed => false,
        _ => true,
    }
}

/// The harness accepts an input exactly when both parsers fail, or both
/// succeed, leave as many bytes unread and agree on the message.
pub proof fn lemma_accepted_inputs(new: NewParse, old: OldParse)
    ensures
        !is_discrepancy(differential_verdict(new, old)) <==> (match (new, old) {
            (Some((nr, nm)), Some((or, om))) => nr == or && messages_agree(nm, om),
            (None, None) => true,
            _ => false,
        }),
{
}

} // verus!
