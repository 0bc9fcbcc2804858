//! Sending a whole file: Send-Init, File-Header, Data, End-of-File, Break.
//!
//! The receiving ROM does not negotiate. It takes packets of at most 94 bytes, one at a time, so
//! the values that the two sides would agree on are constants here.

use crate::codec;
use crate::codec::{needs_quote, quote, tochar, QCTL};
use crate::error::FlashErrorView;
use crate::event::{FlashEvent, FlashEventView};
use crate::exchange;
use crate::exchange::{send_and_wait_ack, Note, NoteView, SendAndWaitAck, SendAndWaitAckView};
use crate::host::{Finished, Machine, Moment, Reply, ReplyView, Request, RequestView, Turn, TurnView};
use vstd::prelude::*;
use vstd::string::*;
use vstd::utf8::*;

verus! {

/// The largest LEN that the receiver takes.
pub const NEGOTIATED_MAXL: u8 = 94;

/// The check that the receiver uses, `1`.
pub const NEGOTIATED_CHKT: u8 = 0x31;

/// How much quoted data fits a packet: LEN also counts SEQ, TYPE and CHECK.
pub const MAX_ENCODED: usize = 91;

/// The fields that the sender declares in its Send-Init packet.
pub open spec fn init_fields() -> Seq<u8> {
    seq![
        codec::spec_tochar(NEGOTIATED_MAXL as int),
        codec::spec_tochar(10),
        codec::spec_tochar(0),
        0x40,
        codec::spec_tochar(13),
        QCTL,
        'N' as u8,
        NEGOTIATED_CHKT,
        ' ' as u8,
        codec::spec_tochar(0),
    ]
}

pub fn send_init_fields() -> (fields: Vec<u8>)
    ensures
        fields@ == init_fields(),
{
    let fields: Vec<u8> = vec![
        tochar(NEGOTIATED_MAXL),  // MAXL
        tochar(10),  // TIME, in seconds
        tochar(0),  // NPAD: no padding
        0x40,  // PADC: NUL, quoted
        tochar(13),  // EOL: CR
        QCTL,
        'N' as u8,  // QBIN: no prefix for the eighth bit
        NEGOTIATED_CHKT,  // CHKT
        ' ' as u8,  // REPT: no run lengths
        tochar(0),  // CAPAS: nothing beyond the basics
    ];
    assert(fields@ =~= init_fields());
    fields
}

/// The largest number of leading bytes, of at most `k`, whose quoted form fits `max` bytes; one
/// byte is taken even if it does not fit.
pub open spec fn longest_fit(data: Seq<u8>, max: int, k: nat) -> nat
    decreases k,
{
    if k <= 1 || codec::quoted(data.take(k as int)).len() <= max {
        k
    } else {
        longest_fit(data, max, (k - 1) as nat)
    }
}

/// How many leading bytes of `data` go into a packet for `max` bytes.
pub open spec fn chunk_len(data: Seq<u8>, max: int) -> nat {
    longest_fit(data, max, data.len())
}

proof fn lemma_quoted_take_grows(data: Seq<u8>, a: int, b: int)
    requires
        0 <= a <= b <= data.len(),
    ensures
        codec::quoted(data.take(a)).len() <= codec::quoted(data.take(b)).len(),
{
    assert(data.take(b) =~= data.take(a) + data.subrange(a, b));
    codec::lemma_quoted_concat(data.take(a), data.subrange(a, b));
}

proof fn lemma_longest_fit_is(data: Seq<u8>, max: int, raw: nat, k: nat)
    requires
        1 <= raw <= k <= data.len(),
        raw == 1 || codec::quoted(data.take(raw as int)).len() <= max,
        raw < data.len() ==> codec::quoted(data.take(raw as int + 1)).len() > max,
    ensures
        longest_fit(data, max, k) == raw,
    decreases k,
{
    if k > raw {
        lemma_quoted_take_grows(data, raw as int + 1, k as int);
        lemma_longest_fit_is(data, max, raw, (k - 1) as nat);
    }
}

/// Splits off as many leading bytes as fit a packet for `max_encoded` bytes, and quotes them. At
/// least one byte is taken, if there is any.
pub fn take_chunk(data: &[u8], max_encoded: usize) -> (res: (usize, Vec<u8>))
    ensures
        res.0 == chunk_len(data@, max_encoded as int),
        res.0 <= data@.len(),
        res.0 == 0 <==> data@.len() == 0,
        res.0 > 1 ==> res.1@.len() <= max_encoded,
        res.0 < data@.len() ==> codec::quoted(data@.take(res.0 + 1)).len() > max_encoded,
        res.1@ == codec::quoted(data@.take(res.0 as int)),
{
    let mut encoded: Vec<u8> = Vec::new();
    let mut raw: usize = 0;
    while raw < data.len()
        invariant
            raw <= data.len(),
            encoded@ == codec::quoted(data@.take(raw as int)),
            raw > 1 ==> encoded@.len() <= max_encoded,
        ensures
            raw <= data.len(),
            encoded@ == codec::quoted(data@.take(raw as int)),
            raw > 1 ==> encoded@.len() <= max_encoded,
            raw == 0 ==> data.len() == 0,
            raw < data.len() ==> codec::quoted(data@.take(raw + 1)).len() > max_encoded,
        decreases data.len() - raw,
    {
        let b: u8 = data[raw];
        proof {
            assert(data@.take(raw + 1) =~= data@.take(raw as int).push(b));
            codec::lemma_quoted_push(data@.take(raw as int), b);
        }
        let add: usize = if needs_quote(b) {
            2
        } else {
            1
        };
        if raw > 0 && (max_encoded < add || encoded.len() > max_encoded - add) {
            break;
        }
        if needs_quote(b) {
            encoded.push(QCTL);
            encoded.push(b ^ 0x40);
        } else {
            encoded.push(b);
        }
        assert(encoded@ =~= codec::quoted(data@.take(raw as int)) + codec::quoted_byte(b));
        raw += 1;
    }
    proof {
        if raw > 0 {
            lemma_longest_fit_is(data@, max_encoded as int, raw as nat, data@.len());
        }
    }
    (raw, encoded)
}

/// A part of a transfer. Each is one packet.
pub enum Part {
    Init,
    Header,
    /// The bytes of the file from the first place up to the second.
    Chunk(int, int),
    Eof,
    Break,
}

/// The TYPE of a part: `S`, `F`, `D`, `Z` or `B`.
pub open spec fn part_type(part: Part) -> u8 {
    match part {
        Part::Init => 'S' as u8,
        Part::Header => 'F' as u8,
        Part::Chunk(_, _) => 'D' as u8,
        Part::Eof => 'Z' as u8,
        Part::Break => 'B' as u8,
    }
}

/// The DATA of a part.
pub open spec fn part_data(name: Seq<u8>, data: Seq<u8>, part: Part) -> Seq<u8> {
    match part {
        Part::Init => init_fields(),
        Part::Header => codec::quoted(name),
        Part::Chunk(start, end) => codec::quoted(data.subrange(start, end)),
        Part::Eof => Seq::empty(),
        Part::Break => Seq::empty(),
    }
}

/// The part that sends the file from a place on: a chunk, or the end of the file.
pub open spec fn part_from(data: Seq<u8>, start: int) -> Part {
    if start < data.len() {
        Part::Chunk(start, start + chunk_len(data.skip(start), MAX_ENCODED as int))
    } else {
        Part::Eof
    }
}

/// The part behind a part.
pub open spec fn part_after(data: Seq<u8>, part: Part) -> Option<Part> {
    match part {
        Part::Init => Some(Part::Header),
        Part::Header => Some(part_from(data, 0)),
        Part::Chunk(_, end) => Some(part_from(data, end)),
        Part::Eof => Some(Part::Break),
        Part::Break => None,
    }
}

/// How much of a file of `len` bytes is sent, in percent, once `end` bytes are.
pub open spec fn percent(end: int, len: nat) -> u8 {
    (end * 100 / (if len == 0 { 1 } else { len as int })) as u8
}

/// Where a transfer stands.
enum Stage {
    Init,
    Header,
    Chunk { start: usize, end: usize },
    Eof,
    Break,
}

impl Stage {
    spec fn part(self) -> Part {
        match self {
            Stage::Init => Part::Init,
            Stage::Header => Part::Header,
            Stage::Chunk { start, end } => Part::Chunk(start as int, end as int),
            Stage::Eof => Part::Eof,
            Stage::Break => Part::Break,
        }
    }
}

/// A transfer under way.
pub struct SendFile {
    name: Vec<u8>,
    data: Vec<u8>,
    stage: Stage,
    seq: u8,
    exchange: Option<SendAndWaitAck>,
}

/// A [`SendFile`] over sequences.
pub struct SendFileView {
    pub name: Seq<u8>,
    pub data: Seq<u8>,
    /// The part under way.
    pub part: Part,
    /// The number of its packet.
    pub seq: u8,
    /// How far its packet is from being acknowledged; none while the progress is being reported.
    pub exchange: Option<SendAndWaitAckView>,
}

impl View for SendFile {
    type V = SendFileView;

    closed spec fn view(&self) -> SendFileView {
        SendFileView {
            name: self.name@,
            data: self.data@,
            part: self.stage.part(),
            seq: self.seq,
            exchange: match self.exchange {
                Some(x) => Some(x@),
                None => None,
            },
        }
    }
}

impl SendFileView {
    /// Sends a part unless the job was cancelled.
    pub open spec fn launch(
        name: Seq<u8>,
        data: Seq<u8>,
        part: Part,
        seq: u8,
        at: Moment,
    ) -> TurnView<Self, Finished> {
        let x = SendAndWaitAckView::opened(seq, part_type(part), part_data(name, data, part));
        if at.cancelled {
            TurnView::Failed(FlashErrorView::Cancelled)
        } else {
            TurnView::Ask(
                SendFileView { name, data, part, seq, exchange: Some(x) },
                RequestView::Write(x.pkt),
            )
        }
    }

    /// Goes on to the next part, under the next number, or ends.
    pub open spec fn proceed(self, at: Moment) -> TurnView<Self, Finished> {
        match part_after(self.data, self.part) {
            Some(part) => Self::launch(
                self.name,
                self.data,
                part,
                ((self.seq + 1) % 64) as u8,
                at,
            ),
            None => TurnView::Done(Finished),
        }
    }

    /// Whether a transfer can take a reply: the name of the file has to fit into a packet when the
    /// reply has it sent.
    pub open spec fn can_take(self, reply: ReplyView) -> bool {
        self.part is Init && self.exchange is Some && self.exchange->0.acknowledged_by(reply)
            ==> name_fits(self.name)
    }

    /// What the last step has met with.
    pub open spec fn note(self) -> Option<NoteView> {
        match self.exchange {
            Some(x) => x.note,
            None => None,
        }
    }

    /// Goes on from a part that was acknowledged. A chunk is reported first.
    pub open spec fn acknowledged(self, at: Moment) -> TurnView<Self, Finished> {
        match self.part {
            Part::Chunk(_, end) => TurnView::Ask(
                SendFileView { exchange: None, ..self },
                RequestView::Report(FlashEventView::Percent(percent(end, self.data.len()))),
            ),
            _ => self.proceed(at),
        }
    }
}

impl Machine for SendFileView {
    type Output = Finished;

    open spec fn next(self, reply: ReplyView, at: Moment) -> TurnView<Self, Finished> {
        match self.exchange {
            None => self.proceed(at),
            Some(x) => match x.next(reply, at) {
                TurnView::Ask(x, request) => TurnView::Ask(
                    SendFileView { exchange: Some(x), ..self },
                    request,
                ),
                TurnView::Done(_) => self.acknowledged(at),
                TurnView::Failed(e) => TurnView::Failed(e),
            },
        }
    }
}

/// Whether a file name can go out in a File-Header packet.
pub open spec fn name_fits(name: Seq<u8>) -> bool {
    codec::has_len_char(codec::quoted(name).len())
}

/// A chunk takes at least one byte, if there is any, and its quoted form fits.
pub proof fn lemma_chunk_fits(data: Seq<u8>, max: int, k: nat)
    requires
        k <= data.len(),
        max >= 2,
    ensures
        longest_fit(data, max, k) <= k,
        k > 0 ==> longest_fit(data, max, k) >= 1,
        codec::quoted(data.take(longest_fit(data, max, k) as int)).len() <= max,
    decreases k,
{
    if k <= 1 {
        codec::law_quoted_length(data.take(k as int));
    } else if codec::quoted(data.take(k as int)).len() > max {
        lemma_chunk_fits(data, max, (k - 1) as nat);
    }
}

impl SendFile {
    #[verifier::type_invariant]
    closed spec fn wf(self) -> bool {
        &&& self.seq < 64
        &&& self.stage !is Init ==> name_fits(self.name@)
        &&& self.stage matches Stage::Chunk { start, end } ==> start < end <= self.data@.len()
        &&& self.exchange is None ==> self.stage is Chunk
    }

    fn launch_plain(
        name: Vec<u8>,
        data: Vec<u8>,
        stage: Stage,
        seq: u8,
        body: &[u8],
        at: Moment,
    ) -> (turn: Turn<SendFile, Finished>)
        requires
            seq < 64,
            stage !is Init ==> name_fits(name@),
            stage matches Stage::Chunk { start, end } ==> start < end <= data@.len(),
            body@ == part_data(name@, data@, stage.part()),
            codec::has_len_char(body@.len()),
        ensures
            turn@ == SendFileView::launch(name@, data@, stage.part(), seq, at),
    {
        let ptype: u8 = match &stage {
            Stage::Init => 'S' as u8,
            Stage::Header => 'F' as u8,
            Stage::Chunk { start: _, end: _ } => 'D' as u8,
            Stage::Eof => 'Z' as u8,
            Stage::Break => 'B' as u8,
        };
        match send_and_wait_ack(seq, ptype, body, at) {
            Turn::Ask(x, request) => Turn::Ask(
                SendFile { name, data, stage, seq, exchange: Some(x) },
                request,
            ),
            Turn::Done(_) => Turn::Done(Finished),
            Turn::Failed(e) => Turn::Failed(e),
        }
    }

    /// Sends the file from a place on: a chunk, or the end of the file.
    fn launch_from(name: Vec<u8>, data: Vec<u8>, start: usize, seq: u8, at: Moment) -> (turn: Turn<
        SendFile,
        Finished,
    >)
        requires
            seq < 64,
            name_fits(name@),
            start <= data@.len(),
        ensures
            turn@ == SendFileView::launch(
                name@,
                data@,
                part_from(data@, start as int),
                seq,
                at,
            ),
    {
        if start < data.len() {
            let rest: &[u8] = vstd::slice::slice_subrange(data.as_slice(), start, data.len());
            assert(rest@ =~= data@.skip(start as int));
            let (raw, encoded) = take_chunk(rest, MAX_ENCODED);
            proof {
                lemma_chunk_fits(rest@, MAX_ENCODED as int, rest@.len());
                assert(rest@.take(raw as int) =~= data@.subrange(start as int, start + raw));
            }
            let end: usize = start + raw;
            Self::launch_plain(name, data, Stage::Chunk { start, end }, seq, &encoded, at)
        } else {
            let none: Vec<u8> = Vec::new();
            Self::launch_plain(name, data, Stage::Eof, seq, &none, at)
        }
    }

    /// Goes on to the next part, under the next number, or ends.
    fn proceed(name: Vec<u8>, data: Vec<u8>, stage: Stage, seq: u8, at: Moment) -> (turn: Turn<
        SendFile,
        Finished,
    >)
        requires
            seq < 64,
            name_fits(name@),
            stage matches Stage::Chunk { start, end } ==> start < end <= data@.len(),
        ensures
            turn@ == SendFileView::proceed(
                SendFileView {
                    name: name@,
                    data: data@,
                    part: stage.part(),
                    seq,
                    exchange: None,
                },
                at,
            ),
    {
        let seq: u8 = (seq + 1) % 64;
        match stage {
            Stage::Init => {
                let header: Vec<u8> = quote(&name);
                Self::launch_plain(name, data, Stage::Header, seq, &header, at)
            },
            Stage::Header => Self::launch_from(name, data, 0, seq, at),
            Stage::Chunk { start: _, end } => Self::launch_from(name, data, end, seq, at),
            Stage::Eof => {
                let none: Vec<u8> = Vec::new();
                Self::launch_plain(name, data, Stage::Break, seq, &none, at)
            },
            Stage::Break => Turn::Done(Finished),
        }
    }

    /// Goes on from a part that was acknowledged. A chunk is reported first.
    fn acknowledged(name: Vec<u8>, data: Vec<u8>, stage: Stage, seq: u8, at: Moment) -> (turn: Turn<
        SendFile,
        Finished,
    >)
        requires
            seq < 64,
            name_fits(name@),
            stage matches Stage::Chunk { start, end } ==> start < end <= data@.len(),
        ensures
            turn@ == SendFileView::acknowledged(
                SendFileView {
                    name: name@,
                    data: data@,
                    part: stage.part(),
                    seq,
                    exchange: None,
                },
                at,
            ),
    {
        if let Stage::Chunk { start: _, end } = stage {
            let total: u128 = if data.len() == 0 {
                1
            } else {
                data.len() as u128
            };
            let value: u8 = (end as u128 * 100 / total) as u8;
            assert(value == percent(end as int, data@.len()));
            return Turn::Ask(
                SendFile { name, data, stage, seq, exchange: None },
                Request::Report { event: FlashEvent::Percent { value } },
            );
        }
        Self::proceed(name, data, stage, seq, at)
    }

    /// Tells whether the transfer can take a reply. It cannot if the reply has the name of the file
    /// sent and the name does not fit into a packet.
    pub fn can_take(&self, reply: &Reply) -> (yes: bool)
        ensures
            yes == self@.can_take(reply@),
    {
        match (&self.stage, &self.exchange) {
            (Stage::Init, Some(x)) => !x.acknowledged_by(reply) || codec::fits_len_char(
                quote(&self.name).len(),
            ),
            _ => true,
        }
    }

    /// What the last step has met with: why a packet is being sent again, or which packet was
    /// ignored.
    pub fn note(&self) -> (note: Option<&Note>)
        ensures
            exchange::same_note(note, self@.note()),
    {
        match &self.exchange {
            Some(x) => x.note(),
            None => None,
        }
    }

    /// Goes on with the transfer once the host has replied.
    pub fn step(self, reply: Reply, at: Moment) -> (turn: Turn<SendFile, Finished>)
        requires
            self@.can_take(reply@),
        ensures
            turn@ == self@.next(reply@, at),
    {
        proof {
            use_type_invariant(&self);
        }
        let SendFile { name, data, stage, seq, exchange } = self;
        match exchange {
            None => Self::proceed(name, data, stage, seq, at),
            Some(x) => match x.step(reply, at) {
                Turn::Ask(x, request) => Turn::Ask(
                    SendFile { name, data, stage, seq, exchange: Some(x) },
                    request,
                ),
                Turn::Done(_) => Self::acknowledged(name, data, stage, seq, at),
                Turn::Failed(e) => Turn::Failed(e),
            },
        }
    }
}

/// Sends a whole file to a receiver that is waiting for one.
pub fn send_file(file_name: &str, data: &[u8], at: Moment) -> (turn: Turn<SendFile, Finished>)
    ensures
        turn@ == SendFileView::launch(encode_utf8(file_name@), data@, Part::Init, 0, at),
{
    let mut name: Vec<u8> = Vec::new();
    name.extend_from_slice(file_name.as_bytes());
    assert(name@ =~= encode_utf8(file_name@));
    let mut file: Vec<u8> = Vec::new();
    file.extend_from_slice(data);
    assert(file@ =~= data@);
    let fields: Vec<u8> = send_init_fields();
    SendFile::launch_plain(name, file, Stage::Init, 0, &fields, at)
}

/// The progress `p` that is reported once `end` of `len` bytes are sent is the whole part of the
/// percentage.
pub proof fn law_progress_is_the_whole_percentage(end: int, len: nat)
    requires
        0 <= end <= len,
        len > 0,
    ensures
        percent(end, len) * len <= end * 100 < (percent(end, len) + 1) * len,
{
    let n = len as int;
    let p = end * 100 / n;
    assert(0 <= p <= 100 && p * n <= end * 100 < (p + 1) * n) by (nonlinear_arith)
        requires
            p == end * 100 / n,
            0 <= end <= n,
            n > 0,
    ;
}

/// A file name can go out exactly if it is no more than 220 bytes long when it is quoted.
pub proof fn law_names_that_can_go_out(name: Seq<u8>)
    ensures
        name_fits(name) <==> codec::quoted(name).len() <= 220,
{
}

/// The only reply that a transfer cannot take is one that acknowledges Send-Init while the name does
/// not fit.
pub proof fn law_replies_that_cannot_be_taken(m: SendFileView, reply: ReplyView, at: Moment)
    ensures
        !m.can_take(reply) <==> {
            &&& m.part is Init
            &&& m.exchange is Some
            &&& m.exchange->0.next(reply, at) is Done
            &&& codec::quoted(m.name).len() > 220
        },
{
}

proof fn lemma_longest_fit_is_longest(data: Seq<u8>, max: int, k: nat)
    requires
        k <= data.len(),
    ensures
        longest_fit(data, max, k) <= k,
        k > 0 ==> longest_fit(data, max, k) > 0,
        longest_fit(data, max, k) > 1 ==> codec::quoted(
            data.take(longest_fit(data, max, k) as int),
        ).len() <= max,
        longest_fit(data, max, k) < k ==> codec::quoted(
            data.take(longest_fit(data, max, k) as int + 1),
        ).len() > max,
    decreases k,
{
    if !(k <= 1 || codec::quoted(data.take(k as int)).len() <= max) {
        lemma_longest_fit_is_longest(data, max, (k - 1) as nat);
    }
}

/// A chunk takes as many bytes as fit when they are quoted, and no fewer: with one byte more it
/// would not fit. It takes at least one, if there is any.
pub proof fn law_chunk_takes_what_fits(data: Seq<u8>, max: int)
    ensures
        ({
            let n = chunk_len(data, max);
            &&& n <= data.len()
            &&& n == 0 <==> data.len() == 0
            &&& n > 1 ==> codec::quoted(data.take(n as int)).len() <= max
            &&& n < data.len() ==> codec::quoted(data.take(n as int + 1)).len() > max
        }),
{
    lemma_longest_fit_is_longest(data, max, data.len());
}

/// The fields of Send-Init: 94 bytes at most, ten seconds, no padding with NUL, a carriage return
/// behind each packet, `#` as the prefix, no eighth-bit prefix, the one-character check, no repeat
/// counts, no further capabilities.
pub proof fn law_fields_of_send_init()
    ensures
        init_fields() == seq![126u8, 42, 32, 64, 45, 35, 78, 49, 32, 32],
{
    assert(init_fields() =~= seq![126u8, 42, 32, 64, 45, 35, 78, 49, 32, 32]);
}

} // verus!
