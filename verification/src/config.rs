use vstd::prelude::*;
use crate::stream::{Device, DeviceId, HostId, opt_name};

verus! {

/// The audio devices chosen in the settings: the platform's defaults, or a host with
/// optionally chosen input and output devices.
#[derive(Clone, Debug, Default, PartialEq, Eq)]
pub enum Devices {
    #[default]
    Default,
    WithHost { host: HostId, input: Option<String>, output: Option<String> },
}

impl View for Devices {
    /// `None` for the defaults; else the host and the names of the input and output devices.
    type V = Option<(HostId, Option<Seq<char>>, Option<Seq<char>>)>;

    open spec fn view(&self) -> Option<(HostId, Option<Seq<char>>, Option<Seq<char>>)> {
        match self {
            Devices::Default => None,
            Devices::WithHost { host, input, output } => Some(
                (*host, opt_name(*input), opt_name(*output)),
            ),
        }
    }
}

/// The device that the settings `v` choose for input (`input == true`) or output.
pub open spec fn chosen_device(
    v: Option<(HostId, Option<Seq<char>>, Option<Seq<char>>)>,
    input: bool,
) -> Option<(HostId, Option<Seq<char>>)> {
    match v {
        None => None,
        Some((host, i, o)) => Some((host, if input { i } else { o })),
    }
}

/// The settings after choosing `device` for input (`input == true`) or output: choosing no
/// device keeps the host; choosing a device takes its host, and keeps the other direction's
/// device only where the host stays the same.
pub open spec fn choose_device(
    v: Option<(HostId, Option<Seq<char>>, Option<Seq<char>>)>,
    device: Option<(HostId, Seq<char>)>,
    input: bool,
) -> Option<(HostId, Option<Seq<char>>, Option<Seq<char>>)> {
    match (v, device) {
        (None, None) => None,
        (Some((host, i, o)), None) => Some(
            if input { (host, None, o) } else { (host, i, None) },
        ),
        (None, Some((host, name))) => Some(
            if input { (host, Some(name), None) } else { (host, None, Some(name)) },
        ),
        (Some((host, i, o)), Some((new_host, name))) => Some(
            if input {
                (new_host, Some(name), if host == new_host { o } else { None })
            } else {
                (new_host, if host == new_host { i } else { None }, Some(name))
            },
        ),
    }
}

/// The view of an optional device.
pub open spec fn opt_device(d: Option<DeviceId>) -> Option<(HostId, Seq<char>)> {
    match d {
        Some(d) => Some(d@),
        None => None,
    }
}

fn device_for(host: HostId, name: &Option<String>) -> (r: Device)
    ensures
        r@ == Some((host, opt_name(*name))),
{
    match name {
        Some(name) => Device::Specific(DeviceId::new(host, name.as_str())),
        None => Device::DefaultForHost(host),
    }
}

impl Devices {
    pub fn get_host(&self) -> (r: Option<HostId>)
        ensures
            r == match self@ {
                Some(v) => Some(v.0),
                None => None::<HostId>,
            },
    {
        match self {
            Devices::Default => None,
            Devices::WithHost { host, .. } => Some(*host),
        }
    }

    /// Chooses a host, with its default devices; `None` goes back to the platform's defaults.
    pub fn set_host(&mut self, host: Option<HostId>)
        ensures
            final(self)@ == match host {
                Some(h) => Some((h, None::<Seq<char>>, None::<Seq<char>>)),
                None => None,
            },
    {
        *self = match host {
            Some(host) => Devices::WithHost { host, input: None, output: None },
            None => Devices::Default,
        };
    }

    pub fn get_input(&self) -> (r: Device)
        ensures
            r@ == chosen_device(self@, true),
    {
        match self {
            Devices::Default => Device::Default,
            Devices::WithHost { host, input, .. } => device_for(*host, input),
        }
    }

    /// Chooses an input device, or the host's default where `input` is `None`.
    pub fn set_input(&mut self, input: Option<DeviceId>)
        ensures
            final(self)@ == choose_device(old(self)@, opt_device(input), true),
    {
        let mut current = Devices::Default;
        std::mem::swap(&mut current, self);
        *self = match (current, input) {
            (Devices::Default, None) => Devices::Default,
            (Devices::WithHost { host, output, .. }, None) => Devices::WithHost {
                host,
                input: None,
                output,
            },
            (Devices::Default, Some(input)) => Devices::WithHost {
                host: input.host(),
                input: Some(input.id().to_owned()),
                output: None,
            },
            (Devices::WithHost { host, output, .. }, Some(input)) => Devices::WithHost {
                output: if host == input.host() { output } else { None },
                host: input.host(),
                input: Some(input.id().to_owned()),
            },
        };
    }

    pub fn get_output(&self) -> (r: Device)
        ensures
            r@ == chosen_device(self@, false),
    {
        match self {
            Devices::Default => Device::Default,
            Devices::WithHost { host, output, .. } => device_for(*host, output),
        }
    }

    /// Chooses an output device, or the host's default where `output` is `None`.
    pub fn set_output(&mut self, output: Option<DeviceId>)
        ensures
            final(self)@ == choose_device(old(self)@, opt_device(output), false),
    {
        let mut current = Devices::Default;
        std::mem::swap(&mut current, self);
        *self = match (current, output) {
            (Devices::Default, None) => Devices::Default,
            (Devices::WithHost { host, input, .. }, None) => Devices::WithHost {
                host,
                input,
                output: None,
            },
            (Devices::Default, Some(output)) => Devices::WithHost {
                host: output.host(),
                input: None,
                output: Some(output.id().to_owned()),
            },
            (Devices::WithHost { host, input, .. }, Some(output)) => Devices::WithHost {
                input: if host == output.host() { input } else { None },
                host: output.host(),
                output: Some(output.id().to_owned()),
            },
        };
    }
}

/// The audio settings: the devices, and the sample rate and buffer size to ask for (`None` for
/// the device's own; neither is ever zero).
#[derive(Clone, Debug, Default, PartialEq, Eq)]
pub struct Audio {
    pub devices: Devices,
    pub sample_rate: Option<u32>,
    pub buffer_size: Option<u32>,
}

/// How often the project is saved on its own, in seconds (never zero).
#[derive(Clone, Copy, Debug, PartialEq, Eq, Structural)]
pub struct Autosave {
    pub enabled: bool,
    pub interval: u16,
}

impl Default for Autosave {
    fn default() -> (r: Self)
        ensures
            r == (Autosave { enabled: true, interval: 300 }),
    {
        Autosave { enabled: true, interval: 300 }
    }
}

/// The device that choosing `device` for one direction leaves chosen there: that device, or,
/// where none is chosen, the default of the host that stays chosen.
pub open spec fn read_back(
    v: Option<(HostId, Option<Seq<char>>, Option<Seq<char>>)>,
    device: Option<(HostId, Seq<char>)>,
) -> Option<(HostId, Option<Seq<char>>)> {
    match device {
        Some((host, name)) => Some((host, Some(name))),
        None => match v {
            Some((host, _, _)) => Some((host, None)),
            None => None,
        },
    }
}

/// Choosing a device and reading it back gives the choice back; the host becomes the
/// device's; and the other direction's device stays chosen where the host stays the same.
pub proof fn lemma_choose_then_read(
    v: Option<(HostId, Option<Seq<char>>, Option<Seq<char>>)>,
    device: Option<(HostId, Seq<char>)>,
    input: bool,
)
    ensures
        chosen_device(choose_device(v, device, input), input) == read_back(v, device),
        device matches Some((h, _)) ==> choose_device(v, device, input) matches Some(w) && w.0
            == h,
        match (v, device) {
            (Some((h0, _, _)), Some((h, _))) => h == h0 ==> chosen_device(
                choose_device(v, device, input),
                !input,
            ) == chosen_device(v, !input),
            (Some(_), None) => chosen_device(choose_device(v, device, input), !input)
                == chosen_device(v, !input),
            _ => true,
        },
{
}

} // verus!
