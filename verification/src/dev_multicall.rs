//! Batches of contract calls. The calls are recorded rather than run: each
//! call's result carries, as a JSON string, the text `executed:` with the
//! call's target and method.
use vstd::prelude::*;
use crate::text::{decimal, push_decimal};

verus! {

/// A call in a batch.
#[derive(Clone, Debug)]
pub struct Call {
    pub target: String,
    pub method: String,
    pub args: Vec<u8>,
    pub value: u64,
}

/// What a call of a batch gave back.
#[derive(Clone, Debug)]
pub struct MulticallResult {
    pub success: bool,
    pub return_data: Vec<u8>,
}

/// The batcher.
#[derive(Clone, Debug)]
pub struct MulticallState {
    pub owner: String,
    /// The number of calls that succeeded, over all batches.
    pub total_calls_executed: u64,
}

/// The lower-case hexadecimal digit of `d`, below sixteen, as a byte.
pub open spec fn hex_digit_byte(d: u8) -> u8 {
    if d < 10 {
        (48 + d) as u8
    } else {
        (87 + d) as u8
    }
}

/// How a JSON string writes the byte `b` of its text: a quote and a
/// backslash behind a backslash; backspace, tab, line feed, form feed and
/// carriage return as `\b`, `\t`, `\n`, `\f`, `\r`; the other bytes below
/// 0x20 as `\u00` and two lower-case hexadecimal digits; every other byte as
/// it is.
pub open spec fn json_escape_byte(b: u8) -> Seq<u8> {
    if b == 0x22 {
        seq![0x5cu8, 0x22u8]
    } else if b == 0x5c {
        seq![0x5cu8, 0x5cu8]
    } else if b == 0x08 {
        seq![0x5cu8, 0x62u8]
    } else if b == 0x09 {
        seq![0x5cu8, 0x74u8]
    } else if b == 0x0a {
        seq![0x5cu8, 0x6eu8]
    } else if b == 0x0c {
        seq![0x5cu8, 0x66u8]
    } else if b == 0x0d {
        seq![0x5cu8, 0x72u8]
    } else if b < 0x20 {
        seq![0x5cu8, 0x75u8, 0x30u8, 0x30u8, hex_digit_byte(b / 16), hex_digit_byte(b % 16)]
    } else {
        seq![b]
    }
}

/// The bytes `bytes` escaped byte by byte as a JSON string writes them.
pub open spec fn json_escaped(bytes: Seq<u8>) -> Seq<u8>
    decreases bytes.len(),
{
    if bytes.len() == 0 {
        Seq::empty()
    } else {
        json_escaped(bytes.drop_last()) + json_escape_byte(bytes.last())
    }
}

/// The bytes `serde_json::to_vec` writes for a string with the characters
/// `text`: a quote, the UTF-8 of the text escaped, a quote.
pub open spec fn json_string(text: Seq<char>) -> Seq<u8> {
    seq![0x22u8] + json_escaped(vstd::utf8::encode_utf8(text)) + seq![0x22u8]
}

/// The JSON string literal of `text`, by `serde_json::to_vec`, which
/// writes it as `json_string` states and cannot fail on a string.
#[verifier::external_body]
fn json_string_bytes(text: &String) -> (r: Vec<u8>)
    ensures
        r@ == json_string(text@),
{
    serde_json::to_vec(text).unwrap()
}

/// The record of a call: `executed:`, its target, `:`, its method.
pub open spec fn executed_text(c: Call) -> Seq<char> {
    "executed:"@ + c.target@ + ":"@ + c.method@
}

/// The record of a call with a value: as `executed_text`, then `:value=`
/// and the value in decimal.
pub open spec fn valued_text(c: Call, value: u64) -> Seq<char> {
    executed_text(c) + ":value="@ + decimal(value as nat)
}

/// What a failed call gives back: the UTF-8 bytes of `error: empty method`.
pub open spec fn empty_method_error() -> Seq<u8> {
    vstd::utf8::encode_utf8("error: empty method"@)
}

/// Each result as whether it succeeded and its data.
pub open spec fn outcomes(r: Seq<MulticallResult>) -> Seq<(bool, Seq<u8>)> {
    r.map_values(|x: MulticallResult| (x.success, x.return_data@))
}

/// The outcome of a call in a batch that all must pass.
pub open spec fn call_outcome(c: Call) -> (bool, Seq<u8>) {
    (true, json_string(executed_text(c)))
}

/// The outcome of a call in a batch that goes on past failures: a call
/// with an empty method fails.
pub open spec fn try_outcome(c: Call) -> (bool, Seq<u8>) {
    if c.method@.len() == 0 {
        (false, empty_method_error())
    } else {
        (true, json_string(executed_text(c)))
    }
}

/// The number of calls in `calls` whose method is not empty.
pub open spec fn with_method(calls: Seq<Call>) -> nat
    decreases calls.len(),
{
    if calls.len() == 0 {
        0
    } else {
        with_method(calls.drop_last()) + if calls.last().method@.len() == 0 {
            0nat
        } else {
            1nat
        }
    }
}

/// The record of `call`.
fn executed_text_of(call: &Call) -> (r: String)
    ensures
        r@ == executed_text(*call),
{
    let mut s = String::from_str("executed:");
    s.append(call.target.as_str());
    s.append(":");
    s.append(call.method.as_str());
    s
}

proof fn lemma_with_method_le(calls: Seq<Call>)
    ensures
        with_method(calls) <= calls.len(),
    decreases calls.len(),
{
    if calls.len() > 0 {
        lemma_with_method_le(calls.drop_last());
    }
}

impl MulticallState {
    pub fn new(owner: String) -> (s: Self)
        ensures
            s.owner == owner,
            s.total_calls_executed == 0,
    {
        MulticallState { owner, total_calls_executed: 0 }
    }

    /// Records a batch of calls that all succeed; the batch is not empty.
    pub fn multicall(&mut self, calls: &[Call]) -> (r: Vec<MulticallResult>)
        requires
            calls@.len() > 0,
            old(self).total_calls_executed + calls@.len() <= u64::MAX,
        ensures
            outcomes(r@) == calls@.map_values(|c: Call| call_outcome(c)),
            final(self).total_calls_executed == old(self).total_calls_executed + calls@.len(),
            final(self).owner == old(self).owner,
    {
        let mut results: Vec<MulticallResult> = Vec::new();
        let mut i: usize = 0;
        while i < calls.len()
            invariant
                i <= calls@.len(),
                outcomes(results@) == calls@.take(i as int).map_values(|c: Call| call_outcome(c)),
            decreases calls@.len() - i,
        {
            let text = executed_text_of(&calls[i]);
            let return_data = json_string_bytes(&text);
            let ghost before = results@;
            results.push(MulticallResult { success: true, return_data });
            assert(outcomes(results@) =~= outcomes(before).push(call_outcome(calls@[i as int])));
            assert(calls@.take(i + 1).map_values(|c: Call| call_outcome(c)) =~= calls@.take(
                i as int,
            ).map_values(|c: Call| call_outcome(c)).push(call_outcome(calls@[i as int])));
            i += 1;
        }
        assert(calls@.take(calls@.len() as int) =~= calls@);
        self.total_calls_executed = self.total_calls_executed + calls.len() as u64;
        results
    }

    /// Records a batch of calls, each succeeding or failing on its own; a
    /// call with an empty method fails. Counts the calls that succeed.
    pub fn try_multicall(&mut self, calls: &[Call]) -> (r: Vec<MulticallResult>)
        requires
            calls@.len() > 0,
            old(self).total_calls_executed + calls@.len() <= u64::MAX,
        ensures
            outcomes(r@) == calls@.map_values(|c: Call| try_outcome(c)),
            final(self).total_calls_executed == old(self).total_calls_executed + with_method(calls@),
            final(self).owner == old(self).owner,
    {
        let mut results: Vec<MulticallResult> = Vec::new();
        let mut i: usize = 0;
        while i < calls.len()
            invariant
                i <= calls@.len(),
                outcomes(results@) == calls@.take(i as int).map_values(|c: Call| try_outcome(c)),
                self.total_calls_executed == old(self).total_calls_executed + with_method(
                    calls@.take(i as int),
                ),
                old(self).total_calls_executed + calls@.len() <= u64::MAX,
                self.owner == old(self).owner,
            decreases calls@.len() - i,
        {
            proof {
                assert(calls@.take(i + 1).drop_last() =~= calls@.take(i as int));
                lemma_with_method_le(calls@.take(i as int));
            }
            let ghost before = results@;
            if calls[i].method.as_str().is_empty() {
                let message = "error: empty method";
                results.push(
                    MulticallResult {
                        success: false,
                        return_data: vstd::slice::slice_to_vec(message.as_bytes()),
                    },
                );
            } else {
                let text = executed_text_of(&calls[i]);
                let return_data = json_string_bytes(&text);
                results.push(MulticallResult { success: true, return_data });
                self.total_calls_executed = self.total_calls_executed + 1;
            }
            assert(outcomes(results@) =~= outcomes(before).push(try_outcome(calls@[i as int])));
            assert(calls@.take(i + 1).map_values(|c: Call| try_outcome(c)) =~= calls@.take(
                i as int,
            ).map_values(|c: Call| try_outcome(c)).push(try_outcome(calls@[i as int])));
            i += 1;
        }
        assert(calls@.take(calls@.len() as int) =~= calls@);
        results
    }

    /// Records a batch of calls with a value for each, all succeeding; the
    /// batch is not empty and has one value per call.
    pub fn multicall_with_value(&mut self, calls: &[Call], values: &[u64]) -> (r: Vec<MulticallResult>)
        requires
            calls@.len() > 0,
            calls@.len() == values@.len(),
            old(self).total_calls_executed + calls@.len() <= u64::MAX,
        ensures
            outcomes(r@) == Seq::new(
                calls@.len(),
                |i: int| (true, json_string(valued_text(calls@[i], values@[i]))),
            ),
            final(self).total_calls_executed == old(self).total_calls_executed + calls@.len(),
            final(self).owner == old(self).owner,
    {
        let mut results: Vec<MulticallResult> = Vec::new();
        let mut i: usize = 0;
        while i < calls.len()
            invariant
                i <= calls@.len(),
                calls@.len() == values@.len(),
                outcomes(results@) == Seq::new(
                    i as nat,
                    |k: int| (true, json_string(valued_text(calls@[k], values@[k]))),
                ),
            decreases calls@.len() - i,
        {
            let mut text = executed_text_of(&calls[i]);
            text.append(":value=");
            push_decimal(&mut text, values[i]);
            let return_data = json_string_bytes(&text);
            let ghost before = results@;
            results.push(MulticallResult { success: true, return_data });
            assert(outcomes(results@) =~= Seq::new(
                (i + 1) as nat,
                |k: int| (true, json_string(valued_text(calls@[k], values@[k]))),
            )) by {
                assert(text@ =~= valued_text(calls@[i as int], values@[i as int]));
                assert(outcomes(results@) =~= outcomes(before).push(
                    (true, json_string(valued_text(calls@[i as int], values@[i as int]))),
                ));
            }
            i += 1;
        }
        self.total_calls_executed = self.total_calls_executed + calls.len() as u64;
        results
    }
}

/// The number of outcomes that are successes.
pub open spec fn successes(outs: Seq<(bool, Seq<u8>)>) -> nat
    decreases outs.len(),
{
    if outs.len() == 0 {
        0
    } else {
        successes(outs.drop_last()) + if outs.last().0 {
            1nat
        } else {
            0nat
        }
    }
}

/// A batch that goes on past failures adds to the count exactly the
/// number of its results that are successes.
pub proof fn law_try_batch_counts_successes(calls: Seq<Call>)
    ensures
        successes(calls.map_values(|c: Call| try_outcome(c))) == with_method(calls),
    decreases calls.len(),
{
    if calls.len() > 0 {
        law_try_batch_counts_successes(calls.drop_last());
        assert(calls.map_values(|c: Call| try_outcome(c)).drop_last() =~= calls.drop_last().map_values(
            |c: Call| try_outcome(c),
        ));
    }
}

} // verus!
