//! Decoding of raw MIDI byte streams into the few events the controller understands.
use vstd::prelude::*;
use vstd::std_specs::cmp::PartialOrdIs;
use vstd::std_specs::cmp::PartialOrdSpecImpl;
use vstd::std_specs::convert::FromSpec;
use vstd::std_specs::convert::FromSpecImpl;

verus! {

/// A MIDI note number. Notes are ordered by their numbers.
#[derive(Debug, Copy, Clone, PartialEq, Eq, Hash, Ord, Structural)]
pub struct Note(pub u8);

impl PartialOrd for Note {
    fn partial_cmp(&self, other: &Note) -> (r: Option<core::cmp::Ordering>) {
        if self.0 < other.0 {
            Some(core::cmp::Ordering::Less)
        } else if self.0 == other.0 {
            Some(core::cmp::Ordering::Equal)
        } else {
            Some(core::cmp::Ordering::Greater)
        }
    }
}

impl PartialOrdSpecImpl for Note {
    open spec fn obeys_partial_cmp_spec() -> bool {
        true
    }

    open spec fn partial_cmp_spec(&self, other: &Note) -> Option<core::cmp::Ordering> {
        if self.0 < other.0 {
            Some(core::cmp::Ordering::Less)
        } else if self.0 == other.0 {
            Some(core::cmp::Ordering::Equal)
        } else {
            Some(core::cmp::Ordering::Greater)
        }
    }
}

impl From<Note> for u8 {
    fn from(note: Note) -> (n: u8) {
        note.0
    }
}

impl FromSpecImpl<Note> for u8 {
    open spec fn obeys_from_spec() -> bool {
        true
    }

    open spec fn from_spec(note: Note) -> u8 {
        note.0
    }
}

/// Notes compare as their numbers do: two notes are equal exactly when their
/// numbers are, and one comes before another exactly when its number is smaller;
/// converting a note to `u8` gives its number back.
pub proof fn lemma_note_order(a: Note, b: Note)
    ensures
        <u8 as FromSpec<Note>>::from_spec(a) == a.0,
        (a == b) <==> (a.0 == b.0),
        a.is_lt(&b) <==> a.0 < b.0,
        a.is_le(&b) <==> a.0 <= b.0,
        a.is_gt(&b) <==> a.0 > b.0,
        a.is_ge(&b) <==> a.0 >= b.0,
{
}

impl Note {
    pub fn new(note: u8) -> (n: Note)
        ensures
            n.0 == note,
    {
        Note(note)
    }

    /// The raw note number.
    pub fn value(self) -> (v: u8)
        ensures
            v == self.0,
    {
        self.0
    }
}

/// A MIDI control-change channel number.
#[derive(Debug, Copy, Clone, PartialEq, Eq, Hash, PartialOrd, Ord, Structural)]
pub struct ControlChannel(pub u8);

impl ControlChannel {
    pub fn new(control_channel: u8) -> (c: ControlChannel)
        ensures
            c.0 == control_channel,
    {
        ControlChannel(control_channel)
    }

    /// The raw channel number.
    pub fn value(self) -> (v: u8)
        ensures
            v == self.0,
    {
        self.0
    }
}

/// The status field of a MIDI message: which command it carries.
#[derive(Debug, PartialEq, Eq, Clone, Copy, Structural)]
pub enum Status {
    NoteOff,
    NoteOn,
    PolyphonicAftertouch,
    ControlChange,
    ProgramChange,
    ChannelAftertouch,
    PitchBend,
    SysExStart,
    MIDITimeCodeQtrFrame,
    SongPositionPointer,
    SongSelect,
    TuneRequest,
    SysExEnd,
    TimingClock,
    Start,
    Continue,
    Stop,
    ActiveSensing,
    SystemReset,
}

/// The byte that encodes each status.
pub open spec fn status_byte_spec(s: Status) -> u8 {
    match s {
        Status::NoteOff => 0x80,
        Status::NoteOn => 0x90,
        Status::PolyphonicAftertouch => 0xA0,
        Status::ControlChange => 0xB0,
        Status::ProgramChange => 0xC0,
        Status::ChannelAftertouch => 0xD0,
        Status::PitchBend => 0xE0,
        Status::SysExStart => 0xF0,
        Status::MIDITimeCodeQtrFrame => 0xF1,
        Status::SongPositionPointer => 0xF2,
        Status::SongSelect => 0xF3,
        Status::TuneRequest => 0xF6,
        Status::SysExEnd => 0xF7,
        Status::TimingClock => 0xF8,
        Status::Start => 0xFA,
        Status::Continue => 0xFB,
        Status::Stop => 0xFC,
        Status::ActiveSensing => 0xFE,
        Status::SystemReset => 0xFF,
    }
}

/// The status a byte encodes, if any: exactly the statuses whose byte it is.
pub open spec fn status_of_spec(b: u8) -> Option<Status> {
    if b == 0x80 { Some(Status::NoteOff) }
    else if b == 0x90 { Some(Status::NoteOn) }
    else if b == 0xA0 { Some(Status::PolyphonicAftertouch) }
    else if b == 0xB0 { Some(Status::ControlChange) }
    else if b == 0xC0 { Some(Status::ProgramChange) }
    else if b == 0xD0 { Some(Status::ChannelAftertouch) }
    else if b == 0xE0 { Some(Status::PitchBend) }
    else if b == 0xF0 { Some(Status::SysExStart) }
    else if b == 0xF1 { Some(Status::MIDITimeCodeQtrFrame) }
    else if b == 0xF2 { Some(Status::SongPositionPointer) }
    else if b == 0xF3 { Some(Status::SongSelect) }
    else if b == 0xF6 { Some(Status::TuneRequest) }
    else if b == 0xF7 { Some(Status::SysExEnd) }
    else if b == 0xF8 { Some(Status::TimingClock) }
    else if b == 0xFA { Some(Status::Start) }
    else if b == 0xFB { Some(Status::Continue) }
    else if b == 0xFC { Some(Status::Stop) }
    else if b == 0xFE { Some(Status::ActiveSensing) }
    else if b == 0xFF { Some(Status::SystemReset) }
    else { None }
}

impl Status {
    /// The byte that encodes this status.
    pub fn byte(self) -> (b: u8)
        ensures
            b == status_byte_spec(self),
    {
        match self {
            Status::NoteOff => 0x80,
            Status::NoteOn => 0x90,
            Status::PolyphonicAftertouch => 0xA0,
            Status::ControlChange => 0xB0,
            Status::ProgramChange => 0xC0,
            Status::ChannelAftertouch => 0xD0,
            Status::PitchBend => 0xE0,
            Status::SysExStart => 0xF0,
            Status::MIDITimeCodeQtrFrame => 0xF1,
            Status::SongPositionPointer => 0xF2,
            Status::SongSelect => 0xF3,
            Status::TuneRequest => 0xF6,
            Status::SysExEnd => 0xF7,
            Status::TimingClock => 0xF8,
            Status::Start => 0xFA,
            Status::Continue => 0xFB,
            Status::Stop => 0xFC,
            Status::ActiveSensing => 0xFE,
            Status::SystemReset => 0xFF,
        }
    }

    /// The status whose byte is `b`, or `None` when `b` encodes no status.
    pub fn from_u8(b: u8) -> (s: Option<Status>)
        ensures
            s == status_of_spec(b),
    {
        if b == 0x80 { Some(Status::NoteOff) }
        else if b == 0x90 { Some(Status::NoteOn) }
        else if b == 0xA0 { Some(Status::PolyphonicAftertouch) }
        else if b == 0xB0 { Some(Status::ControlChange) }
        else if b == 0xC0 { Some(Status::ProgramChange) }
        else if b == 0xD0 { Some(Status::ChannelAftertouch) }
        else if b == 0xE0 { Some(Status::PitchBend) }
        else if b == 0xF0 { Some(Status::SysExStart) }
        else if b == 0xF1 { Some(Status::MIDITimeCodeQtrFrame) }
        else if b == 0xF2 { Some(Status::SongPositionPointer) }
        else if b == 0xF3 { Some(Status::SongSelect) }
        else if b == 0xF6 { Some(Status::TuneRequest) }
        else if b == 0xF7 { Some(Status::SysExEnd) }
        else if b == 0xF8 { Some(Status::TimingClock) }
        else if b == 0xFA { Some(Status::Start) }
        else if b == 0xFB { Some(Status::Continue) }
        else if b == 0xFC { Some(Status::Stop) }
        else if b == 0xFE { Some(Status::ActiveSensing) }
        else if b == 0xFF { Some(Status::SystemReset) }
        else { None }
    }
}

/// Decoding a status's own byte gives the status back, and a byte decodes to a
/// status exactly when it is that status's byte.
pub proof fn lemma_status_byte_roundtrip(s: Status, b: u8)
    ensures
        status_of_spec(status_byte_spec(s)) == Some(s),
        status_of_spec(b) == Some(s) <==> b == status_byte_spec(s),
{
}

/// Why a byte stream could not be decoded.
#[derive(Debug, PartialEq, Eq, Clone, Copy, Structural)]
pub enum MidiMessageError {
    BadStatusByte(u8),
    UnexpectedEof,
    MalformedPacket,
}

/// A cursor over the bytes of a MIDI packet.
pub struct MidiMessageStream<'a> {
    data: &'a [u8],
}

impl<'a> View for MidiMessageStream<'a> {
    type V = Seq<u8>;

    /// The bytes not read yet.
    closed spec fn view(&self) -> Seq<u8> {
        self.data@
    }
}

impl<'a> MidiMessageStream<'a> {
    pub fn new(data: &'a [u8]) -> (s: Self)
        ensures
            s@ == data@,
    {
        MidiMessageStream { data }
    }

    /// Takes the next byte, or gives `None` and leaves the stream as it is when it is empty.
    pub fn try_read_u8(&mut self) -> (r: Option<u8>)
        ensures
            old(self)@.len() == 0 ==> r is None && final(self)@ == old(self)@,
            old(self)@.len() > 0 ==> r == Some(old(self)@[0]) && final(self)@ == old(self)@.drop_first(),
    {
        if self.data.is_empty() {
            None
        } else {
            let byte = self.data[0];
            let (_, rest) = self.data.split_at(1);
            self.data = rest;
            Some(byte)
        }
    }

    /// Takes the next byte; an empty stream is an `UnexpectedEof` error.
    pub fn read_u8(&mut self) -> (r: Result<u8, MidiMessageError>)
        ensures
            old(self)@.len() == 0 ==> r == Err::<u8, MidiMessageError>(MidiMessageError::UnexpectedEof)
                && final(self)@ == old(self)@,
            old(self)@.len() > 0 ==> r == Ok::<u8, MidiMessageError>(old(self)@[0])
                && final(self)@ == old(self)@.drop_first(),
    {
        match self.try_read_u8() {
            Some(b) => Ok(b),
            None => Err(MidiMessageError::UnexpectedEof),
        }
    }
}

/// The events the controller reacts to.
#[derive(Debug, Clone, Copy, PartialEq, Eq, Structural)]
pub enum MidiEvent {
    NoteOn { note: Note, velocity: u8 },
    NoteOff { note: Note, velocity: u8 },
    ControlChange { control: ControlChannel, value: u8 },
    TimingClock,
}

/// The result of reading a two-byte message body after its status byte:
/// the two data bytes, or an end-of-stream error, together with the bytes left.
pub open spec fn two_data_bytes(rest: Seq<u8>) -> (Result<(u8, u8), MidiMessageError>, Seq<u8>) {
    if rest.len() == 0 {
        (Err(MidiMessageError::UnexpectedEof), rest)
    } else if rest.len() == 1 {
        (Err(MidiMessageError::UnexpectedEof), rest.drop_first())
    } else {
        (Ok((rest[0], rest[1])), rest.subrange(2, rest.len() as int))
    }
}

/// What reading one event from `bytes` gives, and the bytes left after it.
/// An empty stream holds no event. Otherwise the first byte must be a status byte;
/// note on, note off and control change take two data bytes, the timing clock none,
/// and any other status is a malformed packet.
pub open spec fn read_next_spec(bytes: Seq<u8>) -> (Result<Option<MidiEvent>, MidiMessageError>, Seq<u8>) {
    if bytes.len() == 0 {
        (Ok(None), bytes)
    } else {
        let b = bytes[0];
        let rest = bytes.drop_first();
        match status_of_spec(b) {
            None => (Err(MidiMessageError::BadStatusByte(b)), rest),
            Some(Status::NoteOn) => {
                let (d, left) = two_data_bytes(rest);
                match d {
                    Ok((x, y)) => (Ok(Some(MidiEvent::NoteOn { note: Note(x), velocity: y })), left),
                    Err(e) => (Err(e), left),
                }
            },
            Some(Status::NoteOff) => {
                let (d, left) = two_data_bytes(rest);
                match d {
                    Ok((x, y)) => (Ok(Some(MidiEvent::NoteOff { note: Note(x), velocity: y })), left),
                    Err(e) => (Err(e), left),
                }
            },
            Some(Status::ControlChange) => {
                let (d, left) = two_data_bytes(rest);
                match d {
                    Ok((x, y)) => (Ok(Some(MidiEvent::ControlChange { control: ControlChannel(x), value: y })), left),
                    Err(e) => (Err(e), left),
                }
            },
            Some(Status::TimingClock) => (Ok(Some(MidiEvent::TimingClock)), rest),
            Some(_) => (Err(MidiMessageError::MalformedPacket), rest),
        }
    }
}

impl MidiEvent {
    /// Decodes the first event of a packet.
    pub fn from_bytes(bytes: &[u8]) -> (r: Result<Option<MidiEvent>, MidiMessageError>)
        ensures
            r == read_next_spec(bytes@).0,
    {
        let mut stream = MidiMessageStream::new(bytes);
        MidiEvent::read_next(&mut stream)
    }

    /// Reads the next event from the stream and advances it past the bytes read.
    pub fn read_next(stream: &mut MidiMessageStream) -> (r: Result<Option<MidiEvent>, MidiMessageError>)
        ensures
            r == read_next_spec(old(stream)@).0,
            final(stream)@ == read_next_spec(old(stream)@).1,
    {
        let status = match stream.try_read_u8() {
            Some(status) => status,
            None => return Ok(None),
        };
        let status = match Status::from_u8(status) {
            Some(s) => s,
            None => return Err(MidiMessageError::BadStatusByte(status)),
        };
        match status {
            Status::NoteOn => {
                let note = stream.read_u8()?;
                let velocity = stream.read_u8()?;
                Ok(Some(MidiEvent::NoteOn { note: Note::new(note), velocity }))
            },
            Status::NoteOff => {
                let note = stream.read_u8()?;
                let velocity = stream.read_u8()?;
                Ok(Some(MidiEvent::NoteOff { note: Note::new(note), velocity }))
            },
            Status::ControlChange => {
                let control = stream.read_u8()?;
                let value = stream.read_u8()?;
                Ok(Some(MidiEvent::ControlChange { control: ControlChannel::new(control), value }))
            },
            Status::TimingClock => Ok(Some(MidiEvent::TimingClock)),
            _ => Err(MidiMessageError::MalformedPacket),
        }
    }
}

/// Reading an event from a non-empty stream always consumes a byte.
pub proof fn lemma_read_next_consumes(bytes: Seq<u8>)
    requires
        bytes.len() > 0,
    ensures
        read_next_spec(bytes).1.len() < bytes.len(),
        read_next_spec(bytes).0 != Ok::<Option<MidiEvent>, MidiMessageError>(None),
{
}

/// What a packet decodes to: every event read in turn until the bytes run
/// out, with an error in place of each message that could not be read (the
/// bytes it consumed are skipped and reading goes on after them).
pub open spec fn packet_events(bytes: Seq<u8>) -> Seq<Result<MidiEvent, MidiMessageError>>
    decreases bytes.len(),
{
    if bytes.len() == 0 {
        Seq::empty()
    } else {
        proof { lemma_read_next_consumes(bytes); }
        let (r, rest) = read_next_spec(bytes);
        match r {
            Ok(Some(e)) => seq![Ok(e)] + packet_events(rest),
            Ok(None) => Seq::empty(),
            Err(err) => seq![Err(err)] + packet_events(rest),
        }
    }
}

/// Decodes every event of a packet, in order; a message that cannot be read
/// gives its error and the rest of the packet is still read.
pub fn decode_packet(data: &[u8]) -> (r: Vec<Result<MidiEvent, MidiMessageError>>)
    ensures
        r@ == packet_events(data@),
{
    let mut stream = MidiMessageStream::new(data);
    let mut r: Vec<Result<MidiEvent, MidiMessageError>> = Vec::new();
    loop
        invariant_except_break
            r@ + packet_events(stream@) == packet_events(data@),
        ensures
            r@ == packet_events(data@),
        decreases stream@.len(),
    {
        let ghost before = stream@;
        let ghost done = r@;
        proof {
            if before.len() > 0 {
                lemma_read_next_consumes(before);
            }
        }
        match MidiEvent::read_next(&mut stream) {
            Ok(Some(e)) => {
                r.push(Ok(e));
                assert(r@ + packet_events(stream@) =~= done + packet_events(before));
            },
            Ok(None) => {
                assert(before.len() == 0);
                assert(r@ =~= r@ + packet_events(before));
                break;
            },
            Err(e) => {
                r.push(Err(e));
                assert(r@ + packet_events(stream@) =~= done + packet_events(before));
            },
        }
    }
    r
}

} // verus!
