//! The `zlib-stream` transport: one zlib stream for the life of a
//! connection, each JSON payload ending in a sync-flush marker and perhaps
//! spread over several binary messages.
use vstd::prelude::*;

use crate::text::{concat2, concat3, decimal, decimal_string, owned};

verus! {

/// Neither the compressed input held for one payload nor the text it
/// inflates to may exceed this.
pub const GATEWAY_WEBSOCKET_LIMIT: usize = 67_108_864;
/// How much is inflated per step.
pub const ZLIB_OUTPUT_CHUNK_SIZE: usize = 8192;

/// The sync-flush marker that ends each payload.
pub open spec fn zlib_suffix() -> Seq<u8> {
    seq![0x00u8, 0x00u8, 0xffu8, 0xffu8]
}

pub open spec fn ends_with_suffix(b: Seq<u8>) -> bool {
    b.len() >= 4 && b.skip(b.len() - 4) == zlib_suffix()
}

/// `flate2::Decompress`, declared so that the decoder can hold one. Its
/// state is opaque here: nothing is claimed of what is inside.
#[verifier::external_type_specification]
#[verifier::external_body]
pub struct ExDecompress(flate2::Decompress);

/// A fresh inflater expecting a zlib header: `flate2::Decompress::new(true)`.
#[verifier::external_body]
fn new_inflater() -> (d: flate2::Decompress) {
    flate2::Decompress::new(true)
}

/// `flate2::Decompress::total_in`: the input consumed so far. It depends on
/// the inflater's history, so nothing is claimed of it.
#[verifier::external_body]
fn inflater_total_in(d: &flate2::Decompress) -> (n: u64) {
    d.total_in()
}

/// `flate2::Decompress::total_out`: the output produced so far. It depends
/// on the inflater's history, so nothing is claimed of it.
#[verifier::external_body]
fn inflater_total_out(d: &flate2::Decompress) -> (n: u64) {
    d.total_out()
}

/// One `flate2::Decompress::decompress` step with `FlushDecompress::Sync`
/// over the input from `offset` into `output`: `Ok(true)` when it reports
/// the end of the stream, `Ok(false)` for any other status, or the error's
/// text. What it writes depends on the inflater's history; the contract
/// claims only that the output buffer keeps its length.
#[verifier::external_body]
fn inflate_sync(d: &mut flate2::Decompress, input: &Vec<u8>, offset: usize, output: &mut Vec<u8>) -> (r: Result<bool, String>)
    requires
        offset <= input@.len(),
    ensures
        final(output)@.len() == old(output)@.len(),
{
    match d.decompress(&input[offset..], output.as_mut_slice(), flate2::FlushDecompress::Sync) {
        Ok(flate2::Status::StreamEnd) => Ok(true),
        Ok(flate2::Status::Ok) => Ok(false),
        Ok(flate2::Status::BufError) => Ok(false),
        Err(error) => Err(error.to_string()),
    }
}

/// What `String::from_utf8` makes of bytes: their text, or its error's
/// text.
pub uninterp spec fn utf8_decoded(bytes: Seq<u8>) -> Result<Seq<char>, Seq<char>>;

/// `String::from_utf8`, its error as text. The contract claims only that
/// the outcome is a function of the bytes, named `utf8_decoded`.
#[verifier::external_body]
fn utf8_text(bytes: Vec<u8>) -> (r: Result<String, String>)
    ensures
        match r {
            Ok(s) => utf8_decoded(bytes@) == Ok::<Seq<char>, Seq<char>>(s@),
            Err(e) => utf8_decoded(bytes@) == Err::<Seq<char>, Seq<char>>(e@),
        },
{
    String::from_utf8(bytes).map_err(|error| error.to_string())
}

/// The decoder of one connection's stream.
pub struct GatewayZlibDecoder {
    pub inflater: flate2::Decompress,
    /// Compressed input of a payload whose marker has not arrived.
    pub pending: Vec<u8>,
    /// The compressed input of the last payload handed to the inflater.
    pub last_input: Ghost<Seq<u8>>,
    /// The bytes the inflater gave back for it.
    pub last_output: Ghost<Seq<u8>>,
    /// Whether the inflater took that payload to its end.
    pub last_complete: Ghost<bool>,
    /// How much of that payload's input the inflater consumed.
    pub last_consumed: Ghost<nat>,
    /// Whether the inflater's last step ended the stream or left room in
    /// its output buffer, so that it held nothing more back.
    pub last_drained: Ghost<bool>,
}

/// How far one payload's inflation has got: the compressed input consumed
/// and the bytes inflated so far.
pub struct InflateProgress {
    pub input_offset: usize,
    pub output: Vec<u8>,
}

/// What an inflation step leads to.
#[derive(Debug, PartialEq, Eq)]
pub enum InflateStep {
    /// Inflate again.
    Continue,
    /// The payload is inflated; `stream_ended` when zlib reported the end of
    /// the stream, after which a fresh inflater is needed.
    Done { stream_ended: bool },
    /// The payload cannot be inflated, and why.
    Fail(String),
}

/// A refusal for going past the limit.
pub open spec fn exceeds_text(lead: Seq<char>) -> Seq<char> {
    lead + decimal(GATEWAY_WEBSOCKET_LIMIT as nat) + " bytes"@
}

/// What one step of inflation, as the inflater reported it, means.
/// `status` is what the step returned (stream end, or its error); the four
/// counts are the inflater's totals before and after it, and `buffer` what
/// it wrote. Counts that go backwards or past the input or the buffer are
/// refused, as is output past the limit; otherwise the consumed input and
/// the produced bytes are taken in. The payload is done at the end of the
/// stream (which must be the end of the input), or when the input is used
/// up without filling the buffer, or without any progress; progress
/// without either goes on, and no progress before the input is used up is
/// refused.
#[verifier::loop_isolation(false)]
pub fn inflate_progress(
    progress: &mut InflateProgress,
    input_len: usize,
    status: Result<bool, String>,
    input_before: u64,
    input_after: u64,
    output_before: u64,
    output_after: u64,
    buffer: &Vec<u8>,
) -> (step: InflateStep)
    requires
        old(progress).input_offset <= input_len,
        old(progress).output@.len() <= GATEWAY_WEBSOCKET_LIMIT,
    ensures
        final(progress).input_offset <= input_len,
        final(progress).output@.len() <= GATEWAY_WEBSOCKET_LIMIT,
        match status {
            Err(e) => {
                &&& step matches InflateStep::Fail(m) && m@ == "gateway zlib decode failed: "@ + e@
                &&& final(progress).input_offset == old(progress).input_offset && final(progress).output@ == old(progress).output@
            },
            Ok(end) => {
                let offset = old(progress).input_offset;
                let consumed = input_after - input_before;
                let produced = output_after - output_before;
                if input_after < input_before || consumed > input_len - offset {
                    &&& step matches InflateStep::Fail(m) && m@ == "gateway zlib input count exceeds platform size"@
                    &&& final(progress).input_offset == offset && final(progress).output@ == old(progress).output@
                } else if output_after < output_before || produced > buffer@.len() {
                    &&& step matches InflateStep::Fail(m) && m@ == "gateway zlib output count exceeds platform size"@
                    &&& final(progress).input_offset == offset && final(progress).output@ == old(progress).output@
                } else if old(progress).output@.len() + produced > GATEWAY_WEBSOCKET_LIMIT {
                    &&& step matches InflateStep::Fail(m) && m@ == exceeds_text("decompressed gateway payload exceeds "@)
                    &&& final(progress).input_offset == offset + consumed
                    &&& final(progress).output@ == old(progress).output@
                } else {
                    let at = offset + consumed;
                    &&& final(progress).input_offset == at
                    &&& final(progress).output@ == old(progress).output@ + buffer@.take(produced as int)
                    &&& if end {
                        if at != input_len {
                            step matches InflateStep::Fail(m) && m@ == "gateway zlib stream ended before the input was consumed"@
                        } else {
                            step == (InflateStep::Done { stream_ended: true })
                        }
                    } else if at == input_len && produced < buffer@.len() {
                        step == (InflateStep::Done { stream_ended: false })
                    } else if consumed == 0 && produced == 0 {
                        if at == input_len {
                            step == (InflateStep::Done { stream_ended: false })
                        } else {
                            step matches InflateStep::Fail(m) && m@ == "gateway zlib decoder made no progress"@
                        }
                    } else {
                        step == InflateStep::Continue
                    }
                }
            },
        },
{
    let stream_end = match &status {
        Ok(end) => *end,
        Err(error) => return InflateStep::Fail(concat2("gateway zlib decode failed: ", error.as_str())),
    };
    assert(status == Ok::<bool, String>(stream_end));
    let offset = progress.input_offset;
    if input_after < input_before || input_after - input_before > (input_len - offset) as u64 {
        return InflateStep::Fail(owned("gateway zlib input count exceeds platform size"));
    }
    if output_after < output_before || output_after - output_before > buffer.len() as u64 {
        return InflateStep::Fail(owned("gateway zlib output count exceeds platform size"));
    }
    let consumed = (input_after - input_before) as usize;
    let produced = (output_after - output_before) as usize;
    progress.input_offset = offset + consumed;
    if produced > GATEWAY_WEBSOCKET_LIMIT - progress.output.len() {
        return InflateStep::Fail(concat3("decompressed gateway payload exceeds ", decimal_string(GATEWAY_WEBSOCKET_LIMIT as u64).as_str(), " bytes"));
    }
    let mut k: usize = 0;
    let ghost before = progress.output@;
    while k < produced
        invariant
            k <= produced,
            produced <= buffer@.len(),
            progress.output@ == before + buffer@.take(k as int),
            progress.input_offset == offset + consumed,
        decreases produced - k,
    {
        progress.output.push(buffer[k]);
        proof {
            assert(before + buffer@.take(k + 1) =~= (before + buffer@.take(k as int)).push(buffer@[k as int]));
        }
        k = k + 1;
    }
    let at = progress.input_offset;
    assert(at == offset + consumed);
    assert(at <= input_len);
    if stream_end {
        if at != input_len {
            return InflateStep::Fail(owned("gateway zlib stream ended before the input was consumed"));
        }
        return InflateStep::Done { stream_ended: true };
    }
    if at == input_len && produced < buffer.len() {
        return InflateStep::Done { stream_ended: false };
    }
    if consumed == 0 && produced == 0 {
        if at == input_len {
            return InflateStep::Done { stream_ended: false };
        }
        return InflateStep::Fail(owned("gateway zlib decoder made no progress"));
    }
    InflateStep::Continue
}

impl GatewayZlibDecoder {
    pub fn new() -> (d: Self)
        ensures
            d.pending@.len() == 0,
    {
        GatewayZlibDecoder { inflater: new_inflater(), pending: Vec::new(), last_input: Ghost(Seq::empty()), last_output: Ghost(Seq::empty()), last_complete: Ghost(false), last_consumed: Ghost(0), last_drained: Ghost(false) }
    }

    fn pending_ends_with_suffix(&self) -> (b: bool)
        ensures
            b == ends_with_suffix(self.pending@),
    {
        let n = self.pending.len();
        if n < 4 {
            return false;
        }
        let r = self.pending[n - 4] == 0x00u8 && self.pending[n - 3] == 0x00u8 && self.pending[n - 2] == 0xffu8 && self.pending[n - 1] == 0xffu8;
        proof {
            let t = self.pending@.skip(n - 4);
            if r {
                assert(t =~= zlib_suffix());
            } else {
                if t == zlib_suffix() {
                    assert(t[0] == self.pending@[n - 4]);
                    assert(t[1] == self.pending@[n - 3]);
                    assert(t[2] == self.pending@[n - 2]);
                    assert(t[3] == self.pending@[n - 1]);
                }
            }
        }
        r
    }

    /// Take a binary message. Until a payload's marker arrives its input is
    /// held and nothing is returned; with the marker, the held input is
    /// handed to the inflater, step by step as `inflate_progress` decides,
    /// and the text of what it gave back is returned. Held input over the
    /// limit is refused before it is held.
    pub fn decode(&mut self, chunk: &[u8]) -> (r: Result<Option<String>, String>)
        ensures
            old(self).pending@.len() + chunk@.len() > GATEWAY_WEBSOCKET_LIMIT ==> {
                &&& r matches Err(e) && e@ == exceeds_text("compressed gateway payload exceeds "@)
                &&& final(self).pending@ == old(self).pending@
            },
            old(self).pending@.len() + chunk@.len() <= GATEWAY_WEBSOCKET_LIMIT && !ends_with_suffix(old(self).pending@ + chunk@)
                ==> r == Ok::<Option<String>, String>(None) && final(self).pending@ == old(self).pending@ + chunk@,
            old(self).pending@.len() + chunk@.len() <= GATEWAY_WEBSOCKET_LIMIT && ends_with_suffix(old(self).pending@ + chunk@) ==> {
                &&& final(self).pending@.len() == 0
                &&& final(self).last_input@ == old(self).pending@ + chunk@
                &&& final(self).last_output@.len() <= GATEWAY_WEBSOCKET_LIMIT
                &&& r matches Ok(o) ==> o is Some
                &&& r matches Ok(Some(t)) ==> utf8_decoded(final(self).last_output@) == Ok::<Seq<char>, Seq<char>>(t@)
                &&& !final(self).last_complete@ ==> r is Err
                &&& final(self).last_complete@ ==> final(self).last_consumed@ == final(self).last_input@.len() && final(self).last_drained@
                &&& final(self).last_complete@ ==> match utf8_decoded(final(self).last_output@) {
                    Ok(t) => r matches Ok(Some(s)) && s@ == t,
                    Err(e) => r matches Err(m) && m@ == "gateway payload is not valid UTF-8: "@ + e,
                }
            },
    {
        if self.pending.len() > GATEWAY_WEBSOCKET_LIMIT || chunk.len() > GATEWAY_WEBSOCKET_LIMIT - self.pending.len() {
            return Err(concat3("compressed gateway payload exceeds ", decimal_string(GATEWAY_WEBSOCKET_LIMIT as u64).as_str(), " bytes"));
        }
        let ghost p0 = self.pending@;
        let m = chunk.len();
        let mut i: usize = 0;
        while i < m
            invariant
                m == chunk@.len(),
                i <= m,
                self.pending@ == p0 + chunk@.take(i as int),
            decreases m - i,
        {
            self.pending.push(chunk[i]);
            proof {
                assert(p0 + chunk@.take(i + 1) =~= (p0 + chunk@.take(i as int)).push(chunk@[i as int]));
            }
            i = i + 1;
        }
        proof {
            assert(chunk@.take(m as int) =~= chunk@);
        }
        if !self.pending_ends_with_suffix() {
            return Ok(None);
        }
        proof {
            assert(self.pending@ =~= old(self).pending@ + chunk@);
        }
        let compressed = self.pending.split_off(0);
        proof {
            assert(self.pending@.len() == 0);
            assert(compressed@ =~= old(self).pending@ + chunk@);
        }
        self.last_input = Ghost(compressed@);
        let n = compressed.len();
        let mut progress = InflateProgress { input_offset: 0, output: Vec::new() };
        self.last_complete = Ghost(false);
        self.last_consumed = Ghost(0);
        self.last_drained = Ghost(false);
        loop
            invariant_except_break
                !self.last_complete@,
            invariant
                n == compressed@.len(),
                progress.input_offset <= n,
                progress.output@.len() <= GATEWAY_WEBSOCKET_LIMIT,
                self.pending@.len() == 0,
                self.last_input@ == old(self).pending@ + chunk@,
                compressed@ == old(self).pending@ + chunk@,
                old(self).pending@.len() + chunk@.len() <= GATEWAY_WEBSOCKET_LIMIT,
                ends_with_suffix(old(self).pending@ + chunk@),
            ensures
                self.last_complete@,
                self.last_consumed@ == n,
                self.last_drained@,
            decreases (n - progress.input_offset) + (GATEWAY_WEBSOCKET_LIMIT - progress.output@.len()),
        {
            let mut buffer: Vec<u8> = vec![0u8; ZLIB_OUTPUT_CHUNK_SIZE];
            let input_before = inflater_total_in(&self.inflater);
            let output_before = inflater_total_out(&self.inflater);
            let status = inflate_sync(&mut self.inflater, &compressed, progress.input_offset, &mut buffer);
            let input_after = inflater_total_in(&self.inflater);
            let output_after = inflater_total_out(&self.inflater);
            let ghost offset0 = progress.input_offset;
            let ghost out0 = progress.output@.len();
            let ghost ended = status == Ok::<bool, String>(true);
            let ghost produced = output_after - output_before;
            let ghost room = buffer@.len();
            match inflate_progress(&mut progress, n, status, input_before, input_after, output_before, output_after, &buffer) {
                InflateStep::Continue => {
                    assert(progress.input_offset > offset0 || progress.output@.len() > out0);
                },
                InflateStep::Done { stream_ended } => {
                    if stream_ended {
                        self.inflater = new_inflater();
                    }
                    self.last_complete = Ghost(true);
                    self.last_consumed = Ghost(progress.input_offset as nat);
                    let ghost drained: bool = ended || produced < room;
                    self.last_drained = Ghost(drained);
                    proof {
                        assert(progress.input_offset == n);
                        assert(ended || produced < room);
                    }
                    break;
                },
                InflateStep::Fail(error) => {
                    self.last_output = Ghost(progress.output@);
                    self.last_complete = Ghost(false);
                    return Err(error);
                },
            }
        }
        self.last_output = Ghost(progress.output@);
        match utf8_text(progress.output) {
            Ok(text) => Ok(Some(text)),
            Err(error) => Err(concat2("gateway payload is not valid UTF-8: ", error.as_str())),
        }
    }
}

} // verus!
