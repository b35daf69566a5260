use roller::midi::{decode_packet, ControlChannel, MidiEvent, MidiMessageError, MidiMessageStream, Note, Status};

#[test]
fn note_and_channel_keep_their_value() {
    assert_eq!(Note::new(60).value(), 60);
    assert_eq!(ControlChannel::new(48).value(), 48);
}

#[test]
fn status_bytes_round_trip() {
    assert_eq!(Status::NoteOn.byte(), 0x90);
    assert_eq!(Status::ControlChange.byte(), 0xB0);
    assert_eq!(Status::TimingClock.byte(), 0xF8);
    assert_eq!(Status::from_u8(0x80), Some(Status::NoteOff));
    assert_eq!(Status::from_u8(0xFF), Some(Status::SystemReset));
    assert_eq!(Status::from_u8(0x91), None);
    assert_eq!(Status::from_u8(0xF4), None);
    for s in [Status::NoteOff, Status::PitchBend, Status::SongSelect, Status::ActiveSensing] {
        assert_eq!(Status::from_u8(s.byte()), Some(s));
    }
}

#[test]
fn stream_reads_bytes_in_order() {
    let data = [1u8, 2];
    let mut stream = MidiMessageStream::new(&data);
    assert_eq!(stream.try_read_u8(), Some(1));
    assert_eq!(stream.read_u8(), Ok(2));
    assert_eq!(stream.try_read_u8(), None);
    assert_eq!(stream.read_u8(), Err(MidiMessageError::UnexpectedEof));
}

#[test]
fn decodes_note_on() {
    assert_eq!(
        MidiEvent::from_bytes(&[0x90, 60, 127]),
        Ok(Some(MidiEvent::NoteOn { note: Note::new(60), velocity: 127 }))
    );
}

#[test]
fn decodes_note_off_and_control_change() {
    assert_eq!(
        MidiEvent::from_bytes(&[0x80, 1, 0]),
        Ok(Some(MidiEvent::NoteOff { note: Note::new(1), velocity: 0 }))
    );
    assert_eq!(
        MidiEvent::from_bytes(&[0xB0, 48, 64]),
        Ok(Some(MidiEvent::ControlChange { control: ControlChannel::new(48), value: 64 }))
    );
}

#[test]
fn decodes_timing_clock_and_empty() {
    assert_eq!(MidiEvent::from_bytes(&[0xF8]), Ok(Some(MidiEvent::TimingClock)));
    assert_eq!(MidiEvent::from_bytes(&[]), Ok(None));
}

#[test]
fn rejects_bad_packets() {
    assert_eq!(MidiEvent::from_bytes(&[0x91, 1, 2]), Err(MidiMessageError::BadStatusByte(0x91)));
    assert_eq!(MidiEvent::from_bytes(&[0x90, 1]), Err(MidiMessageError::UnexpectedEof));
    assert_eq!(MidiEvent::from_bytes(&[0x90]), Err(MidiMessageError::UnexpectedEof));
    assert_eq!(MidiEvent::from_bytes(&[0xC0, 1]), Err(MidiMessageError::MalformedPacket));
}

#[test]
fn reads_consecutive_events() {
    let data = [0x90u8, 10, 5, 0xF8, 0x80, 10, 0];
    let mut stream = MidiMessageStream::new(&data);
    assert_eq!(
        MidiEvent::read_next(&mut stream),
        Ok(Some(MidiEvent::NoteOn { note: Note::new(10), velocity: 5 }))
    );
    assert_eq!(MidiEvent::read_next(&mut stream), Ok(Some(MidiEvent::TimingClock)));
    assert_eq!(
        MidiEvent::read_next(&mut stream),
        Ok(Some(MidiEvent::NoteOff { note: Note::new(10), velocity: 0 }))
    );
    assert_eq!(MidiEvent::read_next(&mut stream), Ok(None));
}

#[test]
fn packets_decode_every_event() {
    assert_eq!(
        decode_packet(&[0x90, 1, 2, 0xF8, 0xB0, 48, 3]),
        vec![
            Ok(MidiEvent::NoteOn { note: Note::new(1), velocity: 2 }),
            Ok(MidiEvent::TimingClock),
            Ok(MidiEvent::ControlChange { control: ControlChannel::new(48), value: 3 }),
        ]
    );
    assert_eq!(decode_packet(&[]), vec![]);
}

#[test]
fn packets_skip_bad_messages() {
    assert_eq!(
        decode_packet(&[0x05, 0xF8, 0xC0, 0x80, 7]),
        vec![
            Err(MidiMessageError::BadStatusByte(0x05)),
            Ok(MidiEvent::TimingClock),
            Err(MidiMessageError::MalformedPacket),
            Err(MidiMessageError::UnexpectedEof),
        ]
    );
}

#[test]
fn notes_order_by_number() {
    assert!(Note::new(3) < Note::new(5));
    assert!(!(Note::new(5) < Note::new(3)));
    assert!(Note::new(5) <= Note::new(5));
    assert_eq!(Note::new(7), Note::new(7));
    assert_ne!(Note::new(7), Note::new(8));
    assert_eq!(u8::from(Note::new(42)), 42);
    let mut notes = vec![Note::new(9), Note::new(1), Note::new(4)];
    notes.sort();
    assert_eq!(notes, vec![Note::new(1), Note::new(4), Note::new(9)]);
}
