use generic_daw_core::config::{Audio, Autosave, Devices};
use generic_daw_core::stream::{Channels, Device, DeviceId, HostId, Devices as StreamDevices};

#[test]
fn channels_base_takes_one_or_two_channels() {
    let mono = Channels::base(1);
    assert_eq!((mono.left, mono.right, mono.midi), (0, 0, 0));
    assert_eq!(Channels::base(0).right, 0);
    assert_eq!(Channels::base(2).right, 1);
    assert_eq!(Channels::base(8).right, 1);
    assert!(!mono.enable_audio && !mono.enable_midi);
}

#[test]
fn channels_builders_and_fit() {
    let c = Channels::base(2).left(3).right(5).midi(0b101).enable_audio(true).enable_midi(true);
    assert_eq!((c.left, c.right, c.midi), (3, 5, 0b101));
    assert!(c.enable_audio && c.enable_midi);
    assert!(c.fits_in(6));
    assert!(!c.fits_in(5));
    assert!(!c.fits_in(3));
}

#[test]
fn device_id_keeps_host_and_name() {
    let d = DeviceId::new(HostId(2), "usb");
    assert_eq!(d.host(), HostId(2));
    assert_eq!(d.id(), "usb");
}

#[test]
fn stream_devices_report_chosen_devices() {
    let d = StreamDevices::WithHost {
        host: HostId(1),
        input: Some("mic".to_owned()),
        output: None,
    };
    assert_eq!(d.host(), Some(HostId(1)));
    assert_eq!(d.input(), Some(DeviceId::new(HostId(1), "mic")));
    assert_eq!(d.output(), None);
    assert_eq!(StreamDevices::Default.host(), None);
    assert_eq!(StreamDevices::Default.input(), None);
}

#[test]
fn config_devices_default_to_platform_devices() {
    let d = Devices::default();
    assert_eq!(d.get_host(), None);
    assert_eq!(d.get_input(), Device::Default);
    assert_eq!(d.get_output(), Device::Default);
}

#[test]
fn choosing_an_input_reads_back() {
    let mut d = Devices::default();
    d.set_input(Some(DeviceId::new(HostId(1), "mic")));
    assert_eq!(d.get_host(), Some(HostId(1)));
    assert_eq!(d.get_input(), Device::Specific(DeviceId::new(HostId(1), "mic")));
    assert_eq!(d.get_output(), Device::DefaultForHost(HostId(1)));
    d.set_output(Some(DeviceId::new(HostId(1), "speakers")));
    assert_eq!(d.get_input(), Device::Specific(DeviceId::new(HostId(1), "mic")));
    assert_eq!(d.get_output(), Device::Specific(DeviceId::new(HostId(1), "speakers")));
}

#[test]
fn choosing_a_device_on_another_host_drops_the_other_side() {
    let mut d = Devices::default();
    d.set_input(Some(DeviceId::new(HostId(1), "mic")));
    d.set_output(Some(DeviceId::new(HostId(2), "speakers")));
    assert_eq!(d.get_host(), Some(HostId(2)));
    assert_eq!(d.get_input(), Device::DefaultForHost(HostId(2)));
    assert_eq!(d.get_output(), Device::Specific(DeviceId::new(HostId(2), "speakers")));
}

#[test]
fn clearing_a_device_keeps_the_host() {
    let mut d = Devices::default();
    d.set_output(Some(DeviceId::new(HostId(3), "speakers")));
    d.set_output(None);
    assert_eq!(d.get_host(), Some(HostId(3)));
    assert_eq!(d.get_output(), Device::DefaultForHost(HostId(3)));
    d.set_host(None);
    assert_eq!(d, Devices::Default);
    d.set_input(None);
    assert_eq!(d, Devices::Default);
    d.set_host(Some(HostId(4)));
    assert_eq!(d.get_input(), Device::DefaultForHost(HostId(4)));
}

#[test]
fn audio_and_autosave_defaults() {
    let a = Audio::default();
    assert_eq!(a.devices, Devices::Default);
    assert_eq!((a.sample_rate, a.buffer_size), (None, None));
    let s = Autosave::default();
    assert!(s.enabled);
    assert_eq!(s.interval, 300);
}
