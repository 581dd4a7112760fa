use vstd::prelude::*;

verus! {

/// An audio host (a platform audio API), by its index among the hosts the platform offers.
#[derive(Clone, Copy, Debug, PartialEq, Eq, Structural, Hash)]
pub struct HostId(pub u8);

/// An audio device: the host it belongs to and its identifier within that host.
#[derive(Clone, Debug, PartialEq, Eq, Hash)]
pub struct DeviceId {
    host: HostId,
    id: String,
}

impl View for DeviceId {
    type V = (HostId, Seq<char>);

    closed spec fn view(&self) -> (HostId, Seq<char>) {
        (self.host, self.id@)
    }
}

impl DeviceId {
    pub fn new(host: HostId, id: &str) -> (r: Self)
        ensures
            r@ == (host, id@),
    {
        DeviceId { host, id: id.to_owned() }
    }

    pub fn host(&self) -> (r: HostId)
        ensures
            r == self@.0,
    {
        self.host
    }

    pub fn id(&self) -> (r: &str)
        ensures
            r@ == self@.1,
    {
        self.id.as_str()
    }
}

/// A choice of audio device: the platform's default, a host's default, or a specific device.
#[derive(Clone, Debug, PartialEq, Eq, Hash)]
pub enum Device {
    Default,
    DefaultForHost(HostId),
    Specific(DeviceId),
}

impl View for Device {
    /// `None` for the platform's default; else the host and, for a specific device, its name.
    type V = Option<(HostId, Option<Seq<char>>)>;

    open spec fn view(&self) -> Option<(HostId, Option<Seq<char>>)> {
        match self {
            Device::Default => None,
            Device::DefaultForHost(host) => Some((*host, None)),
            Device::Specific(d) => Some((d@.0, Some(d@.1))),
        }
    }
}

/// Which channels a node takes its input from or sends its output to.
#[derive(Clone, Copy, Debug, PartialEq, Eq, Structural)]
pub struct Channels {
    pub left: u16,
    pub right: u16,
    /// A bit mask of MIDI channels.
    pub midi: u16,
    pub enable_audio: bool,
    pub enable_midi: bool,
}

impl Channels {
    /// The first channel, and the second as the right one where there are two or more.
    pub fn base(channels: u16) -> (r: Self)
        ensures
            r.left == 0,
            r.right == if channels >= 2 { 1u16 } else { 0u16 },
            r.midi == 0,
            !r.enable_audio,
            !r.enable_midi,
    {
        let clamped: u16 = if channels < 1 { 1 } else if channels > 2 { 2 } else { channels };
        Channels { left: 0, right: clamped - 1, midi: 0, enable_audio: false, enable_midi: false }
    }

    /// Whether both audio channels exist among `channels` channels.
    pub fn fits_in(self, channels: u16) -> (r: bool)
        ensures
            r == (self.left < channels && self.right < channels),
    {
        self.left < channels && self.right < channels
    }

    pub fn left(self, left: u16) -> (r: Self)
        ensures
            r == (Channels { left, ..self }),
    {
        Channels { left, ..self }
    }

    pub fn right(self, right: u16) -> (r: Self)
        ensures
            r == (Channels { right, ..self }),
    {
        Channels { right, ..self }
    }

    pub fn midi(self, midi: u16) -> (r: Self)
        ensures
            r == (Channels { midi, ..self }),
    {
        Channels { midi, ..self }
    }

    pub fn enable_audio(self, enable_audio: bool) -> (r: Self)
        ensures
            r == (Channels { enable_audio, ..self }),
    {
        Channels { enable_audio, ..self }
    }

    pub fn enable_midi(self, enable_midi: bool) -> (r: Self)
        ensures
            r == (Channels { enable_midi, ..self }),
    {
        Channels { enable_midi, ..self }
    }
}

/// The view of an optional name.
pub open spec fn opt_name(o: Option<String>) -> Option<Seq<char>> {
    match o {
        Some(s) => Some(s@),
        None => None,
    }
}

/// The audio devices that the streams are built on: the platform's defaults, or a chosen host
/// with optionally chosen input and output devices.
#[derive(Clone, Debug, Default, PartialEq, Eq)]
pub enum Devices {
    #[default]
    Default,
    WithHost { host: HostId, input: Option<String>, output: Option<String> },
}

impl View for Devices {
    /// `None` for the defaults; else the host and the names of the input and output devices.
    type V = Option<(HostId, Option<Seq<char>>, Option<Seq<char>>)>;

    open spec fn view(&self) -> Option<(HostId, Option<Seq<char>>, Option<Seq<char>>)> {
        match self {
            Devices::Default => None,
            Devices::WithHost { host, input, output } => Some(
                (*host, opt_name(*input), opt_name(*output)),
            ),
        }
    }
}

impl Devices {
    pub fn host(&self) -> (r: Option<HostId>)
        ensures
            r == match self@ {
                Some(v) => Some(v.0),
                None => None::<HostId>,
            },
    {
        match self {
            Devices::Default => None,
            Devices::WithHost { host, .. } => Some(*host),
        }
    }

    /// The chosen input device, where a host and an input device are chosen.
    pub fn input(&self) -> (r: Option<DeviceId>)
        ensures
            match self@ {
                Some((host, Some(name), _)) => r matches Some(d) && d@ == (host, name),
                _ => r is None,
            },
    {
        match self {
            Devices::WithHost { host, input: Some(input), .. } => Some(
                DeviceId::new(*host, input.as_str()),
            ),
            _ => None,
        }
    }

    /// The chosen output device, where a host and an output device are chosen.
    pub fn output(&self) -> (r: Option<DeviceId>)
        ensures
            match self@ {
                Some((host, _, Some(name))) => r matches Some(d) && d@ == (host, name),
                _ => r is None,
            },
    {
        match self {
            Devices::WithHost { host, output: Some(output), .. } => Some(
                DeviceId::new(*host, output.as_str()),
            ),
            _ => None,
        }
    }
}

} // verus!
