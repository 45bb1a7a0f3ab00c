//! What is reported after a capture: the expected frames that were never
//! observed, and the text that shows a frame.
use crate::frame::keys_of;
use crate::frame::FrameKey;
use crate::frame::SimpleCanFrame;
use crate::observed::ObservedSet;
use vstd::prelude::*;
use vstd::string::StringExecFns;

verus! {

/// `report` lists, in rising order, exactly the positions of the expected
/// frames whose identity was not observed.
pub open spec fn is_missing_report(
    report: Seq<usize>,
    expected: Seq<FrameKey>,
    observed: Set<FrameKey>,
) -> bool {
    &&& forall|a: int, b: int| 0 <= a < b < report.len() ==> report[a] < report[b]
    &&& forall|a: int|
        0 <= a < report.len() ==> (#[trigger] report[a]) < expected.len() && !observed.contains(
            expected[report[a] as int],
        )
    &&& forall|i: int|
        0 <= i < expected.len() && !observed.contains(#[trigger] expected[i]) ==> exists|a: int|
            0 <= a < report.len() && report[a] == i
}

/// The positions in `expected` of the frames that were not observed, in the
/// order of `expected`. A frame counts as observed when a frame of its
/// identity is in the set, whatever the labels.
pub fn missing_frames(expected: &Vec<SimpleCanFrame>, observed: &ObservedSet) -> (missing: Vec<
    usize,
>)
    ensures
        is_missing_report(missing@, keys_of(expected@), observed@),
{
    let mut missing: Vec<usize> = Vec::new();
    let mut i: usize = 0;
    while i < expected.len()
        invariant
            i <= expected.len(),
            forall|a: int, b: int| 0 <= a < b < missing.len() ==> missing[a] < missing[b],
            forall|a: int|
                0 <= a < missing.len() ==> (#[trigger] missing[a]) < i && !observed@.contains(
                    keys_of(expected@)[missing[a] as int],
                ),
            forall|j: int|
                0 <= j < i && !observed@.contains(#[trigger] keys_of(expected@)[j]) ==> exists|
                    a: int,
                | 0 <= a < missing.len() && missing[a] == j,
        decreases expected.len() - i,
    {
        if !observed.contains(&expected[i]) {
            let ghost before = missing@;
            missing.push(i);
            assert forall|j: int|
                0 <= j < i + 1 && !observed@.contains(
                    #[trigger] keys_of(expected@)[j],
                ) implies exists|a: int| 0 <= a < missing.len() && missing[a] == j by {
                if j < i {
                    let a = choose|a: int| 0 <= a < before.len() && before[a] == j;
                    assert(missing[a] == j);
                } else {
                    assert(missing[before.len() as int] == j);
                }
            }
        }
        i += 1;
    }
    missing
}

/// The text of one decimal digit.
pub open spec fn digit_text(d: nat) -> Seq<char> {
    if d == 0 {
        "0"@
    } else if d == 1 {
        "1"@
    } else if d == 2 {
        "2"@
    } else if d == 3 {
        "3"@
    } else if d == 4 {
        "4"@
    } else if d == 5 {
        "5"@
    } else if d == 6 {
        "6"@
    } else if d == 7 {
        "7"@
    } else if d == 8 {
        "8"@
    } else {
        "9"@
    }
}

/// A number in decimal, without sign or leading zeros.
pub open spec fn decimal(n: nat) -> Seq<char>
    decreases n,
{
    if n < 10 {
        digit_text(n)
    } else {
        decimal(n / 10) + digit_text(n % 10)
    }
}

/// One indented line for each byte, each ending in a comma.
pub open spec fn byte_lines(data: Seq<u8>) -> Seq<char>
    decreases data.len(),
{
    if data.len() == 0 {
        Seq::empty()
    } else {
        byte_lines(data.drop_last()) + "    "@ + decimal(data.last() as nat) + ",\n"@
    }
}

/// A payload as a bracketed list in decimal, one byte to a line.
pub open spec fn byte_list(data: Seq<u8>) -> Seq<char> {
    if data.len() == 0 {
        "[]"@
    } else {
        "[\n"@ + byte_lines(data) + "]"@
    }
}

/// The label as it opens a rendering; nothing where there is none.
pub open spec fn label_text(label: Option<Seq<char>>) -> Seq<char> {
    match label {
        Some(text) => "Name: "@ + text + "\t"@,
        None => Seq::empty(),
    }
}

/// A frame as a report shows it: the label if there is one, then the
/// identifier, the data length code and the payload, all in decimal.
pub open spec fn rendering(label: Option<Seq<char>>, key: FrameKey) -> Seq<char> {
    label_text(label) + "Id: "@ + decimal(key.id as nat) + "\tdlc: "@ + decimal(key.dlc as nat)
        + "\tdata: "@ + byte_list(key.data)
}

fn digit_str(d: usize) -> (text: &'static str)
    requires
        d < 10,
    ensures
        text@ == digit_text(d as nat),
{
    if d == 0 {
        "0"
    } else if d == 1 {
        "1"
    } else if d == 2 {
        "2"
    } else if d == 3 {
        "3"
    } else if d == 4 {
        "4"
    } else if d == 5 {
        "5"
    } else if d == 6 {
        "6"
    } else if d == 7 {
        "7"
    } else if d == 8 {
        "8"
    } else {
        "9"
    }
}

fn push_decimal(out: &mut String, n: usize)
    ensures
        final(out)@ == old(out)@ + decimal(n as nat),
    decreases n,
{
    if n >= 10 {
        push_decimal(out, n / 10);
    }
    out.append(digit_str(n % 10));
    assert(out@ =~= old(out)@ + decimal(n as nat));
}

fn push_byte_list(out: &mut String, data: &Vec<u8>)
    ensures
        final(out)@ == old(out)@ + byte_list(data@),
{
    if data.len() == 0 {
        out.append("[]");
        return;
    }
    out.append("[\n");
    let mut i: usize = 0;
    while i < data.len()
        invariant
            i <= data.len(),
            out@ == old(out)@ + "[\n"@ + byte_lines(data@.take(i as int)),
        decreases data.len() - i,
    {
        let ghost sofar = out@;
        out.append("    ");
        push_decimal(out, data[i] as usize);
        out.append(",\n");
        proof {
            assert(data@.take(i + 1).drop_last() =~= data@.take(i as int));
            assert(out@ =~= old(out)@ + "[\n"@ + byte_lines(data@.take(i + 1)));
        }
        i += 1;
    }
    out.append("]");
    proof {
        assert(data@.take(data.len() as int) =~= data@);
        assert(out@ =~= old(out)@ + byte_list(data@));
    }
}

/// Renders a frame for a report.
pub fn render(frame: &SimpleCanFrame) -> (text: String)
    ensures
        text@ == rendering(frame.label(), frame.key()),
{
    let mut out = String::new();
    match frame.name() {
        Some(name) => {
            out.append("Name: ");
            out.append(name.as_str());
            out.append("\t");
        },
        None => {},
    }
    assert(out@ =~= label_text(frame.label()));
    out.append("Id: ");
    push_decimal(&mut out, frame.id() as usize);
    out.append("\tdlc: ");
    push_decimal(&mut out, frame.dlc());
    out.append("\tdata: ");
    push_byte_list(&mut out, frame.data());
    out
}

} // verus!
