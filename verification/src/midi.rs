//! MIDI messages as the synth reads them.
use midi_control::MidiMessage;
use vstd::prelude::*;

verus! {

/// First byte of a system-exclusive message.
pub const SYSEX: u8 = 0xF0;

/// What a MIDI message says to the synth.
#[derive(Clone, Copy, Debug, PartialEq, Eq, Structural)]
pub enum MidiEvent {
    /// Not a message.
    Invalid,
    NoteOn { channel: u8, key: u8, value: u8 },
    NoteOff { channel: u8, key: u8, value: u8 },
    ControlChange { channel: u8, control: u8, value: u8 },
    /// The two data bytes of a pitch-bend message.
    PitchBend { channel: u8, lsb: u8, msb: u8 },
    /// A message that the synth does not act on.
    Other,
}

/// The event that the bytes of one MIDI message hold.
///
/// Fewer than three bytes are no message.  Below the system-exclusive byte
/// the high half of the first byte is the kind of message and its low half
/// the channel; the second and third byte are the message's data.
pub open spec fn decoded(data: Seq<u8>) -> MidiEvent {
    if data.len() < 3 {
        MidiEvent::Invalid
    } else if data[0] == SYSEX {
        MidiEvent::Other
    } else if data[0] > SYSEX {
        MidiEvent::Invalid
    } else {
        let kind = data[0] & 0xF0;
        let channel = data[0] & 0x0F;
        if kind == 0x80 {
            MidiEvent::NoteOff { channel, key: data[1], value: data[2] }
        } else if kind == 0x90 {
            MidiEvent::NoteOn { channel, key: data[1], value: data[2] }
        } else if kind == 0xB0 {
            MidiEvent::ControlChange { channel, control: data[1], value: data[2] }
        } else if kind == 0xE0 {
            MidiEvent::PitchBend { channel, lsb: data[1], msb: data[2] }
        } else if kind == 0xA0 || kind == 0xC0 || kind == 0xD0 {
            MidiEvent::Other
        } else {
            MidiEvent::Invalid
        }
    }
}

/// `midi_control::MidiMessage::from` on a byte slice, with the message it
/// gives turned into a `MidiEvent`: note on, note off, control change and
/// pitch bend keep their channel (counted from zero) and data bytes, an
/// invalid message stays invalid, and every other message is `Other`.  The
/// contract claims that the crate reads the bytes as `decoded` says.  A
/// system-exclusive message is left out, since the crate may not return on a
/// short one.
#[verifier::external_body]
fn parse_message(data: &[u8]) -> (event: MidiEvent)
    requires
        data@.len() < 3 || data@[0] != SYSEX,
    ensures
        event == decoded(data@),
{
    match MidiMessage::from(data) {
        MidiMessage::NoteOn(c, e) => MidiEvent::NoteOn { channel: c as u8, key: e.key, value: e.value },
        MidiMessage::NoteOff(c, e) => MidiEvent::NoteOff { channel: c as u8, key: e.key, value: e.value },
        MidiMessage::ControlChange(c, e) => MidiEvent::ControlChange { channel: c as u8, control: e.control, value: e.value },
        MidiMessage::PitchBend(c, lsb, msb) => MidiEvent::PitchBend { channel: c as u8, lsb, msb },
        MidiMessage::Invalid => MidiEvent::Invalid,
        _ => MidiEvent::Other,
    }
}

/// Reads the bytes of one MIDI message.
pub fn decode(data: &[u8]) -> (event: MidiEvent)
    ensures
        event == decoded(data@),
{
    if data.len() >= 3 && data[0] == SYSEX {
        MidiEvent::Other
    } else {
        parse_message(data)
    }
}

/// The two data bytes of a pitch-bend message as one signed number: the
/// first byte is the low half and the second the high half of a 16-bit
/// two's-complement number.
pub open spec fn bend_value(lsb: u8, msb: u8) -> int {
    if msb < 128 {
        lsb + 256 * msb
    } else {
        lsb + 256 * msb - 65_536
    }
}

/// The signed number that the data bytes of a pitch-bend message hold.
pub fn bend_raw(lsb: u8, msb: u8) -> (raw: i16)
    ensures
        raw == bend_value(lsb, msb),
{
    let wide: i32 = (lsb as i32) + 256 * (msb as i32);
    if msb < 128 {
        wide as i16
    } else {
        (wide - 65_536) as i16
    }
}

} // verus!
