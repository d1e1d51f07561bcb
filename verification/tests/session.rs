use industrial_io::attrs::attr_differs;
use industrial_io::buffer::Wait;
use industrial_io::channel::{finish_read, Channel, ChannelType, DataFormat, Direction};
use industrial_io::context::{
    timeout_from, timeout_from_ms, Backend, Context, InnerContext, Request,
};
use industrial_io::device::Device;
use industrial_io::errors::{sys_result, sys_result_count, Error};
use industrial_io::native::{cstring_opt, text_from_buf, Version};
use industrial_io::sample::SampleType;
use industrial_io::scan_context::ScanContext;
use nix::errno::Errno;
use std::time::Duration;

const DEV_ID: &str = "iio:device0";
const DEV_NAME: &str = "dummydev";

fn format(length: u32, bits: u32, shift: u32, signed: bool, be: bool) -> DataFormat {
    DataFormat::new(length, bits, shift, signed, false, be, true, 1.0f64.to_bits(), 1)
}

fn voltage0() -> Channel {
    let mut chan = Channel::new(
        "voltage0",
        None,
        Direction::Input,
        true,
        0,
        ChannelType::Voltage,
        DataFormat::new(8, 8, 0, false, true, false, true, 1.0f64.to_bits(), 1),
    );
    chan.add_attr("raw", "17");
    chan.add_attr("scale", "1.000000");
    chan.add_attr("offset", "0");
    chan
}

fn dummydev() -> Device {
    let mut dev = Device::new(DEV_ID, Some(DEV_NAME), None, false, false);
    dev.add_attr("sampling_frequency", "100");
    dev.add_attr("current_timestamp_clock", "realtime\n");
    dev.add_buffer_attr("watermark", "1");
    dev.add_channel(voltage0());
    dev
}

fn timer0() -> Device {
    let mut dev = Device::new("trigger0", Some("timer0"), None, true, false);
    dev.add_attr("sampling_frequency", "100");
    dev
}

// The session that stands for the kernel's dummy driver: one device
// "dummydev" with one input channel "voltage0", and one timer trigger.
fn dummy() -> Context {
    let mut inner = InnerContext::new(1).unwrap();
    inner.describe("local", "Linux 6.1 dummy", "<context name=\"local\"/>");
    inner.set_version(Version::from_native(0, 24, b"c4498c2\0"));
    inner.add_attr("local,kernel", "6.1.0");
    inner.add_device(dummydev());
    inner.add_device(timer0());
    Context::from_inner(inner)
}

// See that we get the default context.
#[test]
fn context_default_context() {
    let res = Context::new(1);
    assert!(res.is_ok());

    let res = Context::from_ptr(0);
    assert!(res.is_err());
}

// See that we get the default context.
#[test]
fn channel_default_context() {
    let dev = dummy().get_device(0).unwrap();
    let chan = dev.get_channel(0);
    assert!(chan.is_ok());
}

// Clone a context and make sure it's reported as same one.
#[test]
fn clone_context() {
    let ctx = dummy();
    let ctx2 = ctx.clone();
    assert_eq!(ctx, ctx2);
}

// See that device iterator gets the correct number of devices.
#[test]
fn dev_iterator_count() {
    let ctx = dummy();
    let ndev = ctx.num_devices();
    assert!(ndev != 0);
    let mut it = ctx.devices();
    let mut count = 0;
    while let Some(_) = it.next() {
        count += 1;
    }
    assert!(count == ndev);
}

// See that the description gives back something.
#[test]
fn name() {
    let ctx = dummy();
    let name = ctx.name();
    println!("Context name: {}", name);
    assert!(name == "local" || name == "network");
}

// See that the description gives back something.
#[test]
fn description() {
    let ctx = dummy();
    let desc = ctx.description();
    println!("Context description: {}", desc);
    assert!(!desc.is_empty());
}

// Make sure we get a device
#[test]
fn get_device() {
    let ctx = dummy();

    let id_dev = ctx.find_device(DEV_ID).unwrap();
    assert_eq!(id_dev.id(), Some(DEV_ID.to_string()));

    let name_dev = ctx.find_device(DEV_NAME).unwrap();
    assert_eq!(name_dev.name(), Some(DEV_NAME.to_string()));

    // Find by name or ID should both work and give the same device.
    let id = name_dev.id().unwrap();
    let id_dev = ctx.find_device(&id).unwrap();
    assert_eq!(name_dev.name(), Some(DEV_NAME.to_string()));
    assert_eq!(name_dev, id_dev);
}

// See that attr iterator gets the correct number of attributes
#[test]
fn attr_iterator_count() {
    let ctx = dummy();
    let dev = ctx.find_device(DEV_ID).unwrap();

    let n = dev.num_attrs();
    assert!(n != 0);
    let mut it = dev.attributes();
    let mut count = 0;
    while let Some(_) = it.next() {
        count += 1;
    }
    assert!(count == n);
}

#[test]
fn a_deep_clone_is_another_context() {
    let ctx = dummy();
    let deep = ctx.try_deep_clone(2).unwrap();
    assert_ne!(ctx, deep);
    assert_eq!(deep.handle(), 2);
    assert_eq!(deep.num_devices(), ctx.num_devices());
    assert_eq!(deep.name(), ctx.name());
    assert!(ctx.try_deep_clone(0).is_err());
    assert!(ctx.try_clone_inner(0).is_err());
    let inner = ctx.try_clone_inner(3).unwrap();
    assert_eq!(Context::from_inner(inner).handle(), 3);
    let released = ctx.try_release_inner();
    assert!(released.is_ok());
    assert_eq!(Context::from_inner(released.unwrap()).handle(), 1);
}

#[test]
fn a_shared_context_is_not_released() {
    let ctx = dummy();
    let other = ctx.clone();
    // Another holder shares the session: the context comes back.
    let ctx = ctx.try_release_inner().unwrap_err();
    assert_eq!(ctx, other);
    assert_eq!(ctx.num_devices(), 2);
    drop(other);
    // A device is a holder too, and so is the buffer made from it.
    let mut dev = ctx.get_device(0).unwrap();
    assert_eq!(dev.context(), Some(ctx.clone()));
    let ctx = ctx.try_release_inner().unwrap_err();
    dev.channel_mut(0).enable();
    let buf = dev.create_buffer(4, false).unwrap();
    drop(dev);
    let ctx = ctx.try_release_inner().unwrap_err();
    assert_eq!(buf.device().context().unwrap().handle(), 1);
    drop(buf);
    // The last holder gets the state.
    let inner = ctx.try_release_inner().unwrap();
    assert_eq!(Context::from_inner(inner).name(), "local");
    // A device that was described by hand belongs to no context.
    assert_eq!(dummydev().context(), None);
    assert_ne!(dummydev(), dummy().get_device(0).unwrap());
    assert_eq!(dummydev(), dummydev());
}

#[test]
fn a_timeout_reaches_every_holder() {
    let ctx = dummy();
    let other = ctx.clone();
    let dev = ctx.get_device(0).unwrap();
    other.set_timeout_ms(5).unwrap();
    assert_eq!(ctx.timeout_ms(), 5);
    assert_eq!(other.timeout_ms(), 5);
    assert_eq!(dev.context().unwrap().timeout_ms(), 5);
    assert_eq!(ctx, other);
    // A full copy is another session, with a timeout of its own.
    let deep = ctx.try_deep_clone(2).unwrap();
    assert_eq!(deep.timeout_ms(), 5);
    deep.set_timeout_ms(7).unwrap();
    assert_eq!(ctx.timeout_ms(), 5);
}

#[test]
fn a_session_that_did_not_open_is_a_system_error() {
    match Context::new(0) {
        Err(Error::Nix(_)) => {}
        other => panic!("unexpected: {:?}", other),
    }
    match Context::with_backend(Backend::Local, 0) {
        Err(Error::Nix(_)) => {}
        other => panic!("unexpected: {:?}", other),
    }
    assert_eq!(Context::from_uri("ip:\0", 7), Err(Error::NulError(3)));
    assert!(Context::from_network("pluto.local", 7).is_ok());
    assert!(Context::from_network("pluto\0.local", 7).is_err());
}

#[test]
fn a_backend_says_what_to_ask_for() {
    assert_eq!(Backend::Default.request(), Ok(Request::Default));
    assert_eq!(Backend::Local.request(), Ok(Request::Local));
    assert_eq!(
        Backend::Xml("/home/user/file.xml").request(),
        Ok(Request::Xml("/home/user/file.xml".to_string()))
    );
    assert_eq!(
        Backend::XmlMem("<context/>\u{e9}").request(),
        Ok(Request::XmlMem("<context/>\u{e9}".to_string(), 12))
    );
    assert_eq!(
        Backend::Network("192.168.2.1").request(),
        Ok(Request::Network("192.168.2.1".to_string()))
    );
    assert_eq!(Backend::Network("").request(), Ok(Request::Network(String::new())));
    assert_eq!(Backend::Usb("3.32.5").request(), Ok(Request::Uri("usb:3.32.5".to_string())));
    assert_eq!(
        Backend::Serial("/dev/ttyUSB0,115200,8n1").request(),
        Ok(Request::Uri("serial:/dev/ttyUSB0,115200,8n1".to_string()))
    );
    assert_eq!(Backend::Uri("local:").request(), Ok(Request::Uri("local:".to_string())));
    assert_eq!(Backend::Uri("ip:\0").request(), Err(Error::NulError(3)));
    assert_eq!(Backend::Usb("1\0").request(), Err(Error::NulError(5)));
    assert_eq!(Backend::Serial("\0").request(), Err(Error::NulError(7)));
    assert_eq!(Backend::Xml("\0").request(), Err(Error::NulError(0)));
    assert_eq!(Backend::XmlMem("a\0").request(), Err(Error::NulError(1)));
    assert_eq!(Backend::Network("a\0").request(), Err(Error::NulError(1)));
}

#[test]
fn a_device_out_of_range_is_an_invalid_index() {
    let ctx = dummy();
    let n = ctx.num_devices();
    assert_eq!(n, 2);
    assert!(ctx.get_device(n - 1).is_ok());
    for i in [n, n + 1, 1000, usize::MAX] {
        match ctx.get_device(i) {
            Err(Error::InvalidIndex) => {}
            other => panic!("unexpected: {:?}", other),
        }
    }
    let empty = Context::new(5).unwrap();
    assert!(matches!(empty.get_device(0), Err(Error::InvalidIndex)));
    let dev = ctx.get_device(0).unwrap();
    assert!(matches!(dev.get_channel(1), Err(Error::InvalidIndex)));
    assert_eq!(dev.get_attr(2), Err(Error::InvalidIndex));
    assert!(matches!(ctx.get_attr(1), Err(Error::InvalidIndex)));
}

#[test]
fn devices_are_found_by_id_name_and_label() {
    let mut inner = InnerContext::new(9).unwrap();
    inner.add_device(Device::new("iio:device0", Some("adc"), Some("front"), false, false));
    inner.add_device(Device::new("iio:device1", Some("adc"), Some("back"), false, false));
    let ctx = Context::from_inner(inner);
    assert_eq!(ctx.find_device("adc").unwrap().id(), Some("iio:device0".to_string()));
    assert_eq!(ctx.find_device("back").unwrap().id(), Some("iio:device1".to_string()));
    assert_eq!(ctx.find_device("iio:device1").unwrap().label(), Some("back".to_string()));
    assert!(ctx.find_device("dac").is_none());
    assert!(ctx.find_device("adc\0").is_none());
    assert_eq!(ctx.device_position("back"), Some(1));
}

#[test]
fn context_attributes_come_as_pairs() {
    let ctx = dummy();
    assert!(ctx.has_attrs());
    assert_eq!(ctx.num_attrs(), 1);
    assert_eq!(ctx.get_attr(0), Ok(("local,kernel".to_string(), "6.1.0".to_string())));
    let mut it = ctx.attributes();
    assert_eq!(it.next(), Some(("local,kernel".to_string(), "6.1.0".to_string())));
    assert_eq!(it.next(), None);
    assert_eq!(it.next(), None);
    assert_eq!(ctx.xml(), "<context name=\"local\"/>");
}

#[test]
fn the_timeout_is_kept_in_milliseconds() {
    let ctx = dummy();
    assert_eq!(ctx.timeout_ms(), 0);
    ctx.set_timeout(Duration::from_millis(1500)).unwrap();
    assert_eq!(ctx.timeout_ms(), 1500);
    ctx.set_timeout(Duration::new(2, 999_999_999)).unwrap();
    assert_eq!(ctx.timeout_ms(), 2999);
    ctx.set_timeout(Duration::ZERO).unwrap();
    assert_eq!(ctx.timeout_ms(), 0);
    ctx.set_timeout_ms(0x1_0000_0000).unwrap();
    assert_eq!(ctx.timeout_ms(), u32::MAX);
    ctx.set_timeout_ms(0xffff_ffff).unwrap();
    assert_eq!(ctx.timeout_ms(), u32::MAX);
    ctx.set_timeout_ms(0xffff_fffe).unwrap();
    assert_eq!(ctx.timeout_ms(), 0xffff_fffe);
    assert_eq!(timeout_from_ms(u64::MAX), u32::MAX);
    assert_eq!(timeout_from(Duration::new(4_294_967, 296_000_000)), u32::MAX);
    assert_eq!(timeout_from(Duration::new(4_294_967, 294_000_000)), 4_294_967_294);
    ctx.set_timeout(Duration::new(u64::MAX, 0)).unwrap();
    assert_eq!(ctx.timeout_ms(), u32::MAX);
}

#[test]
fn the_version_has_its_text() {
    let ctx = dummy();
    let v = ctx.version();
    assert_eq!(v.major, 0);
    assert_eq!(v.minor, 24);
    assert_eq!(v.git_tag, "c4498c2");
    assert_eq!(v.text(), "0.24 tag: c4498c2");
    assert_eq!(Version::from_native(1, 2, b"abcdefgh").git_tag, "abcdefgh");
    assert_eq!(Version::from_native(1, 2, b"ab\0defgh").git_tag, "ab");
    assert_eq!(Version::from_native(1, 2, b"").git_tag, "");
    assert_eq!(Version::from_native(1, 2, b"a\xffb").git_tag, "a\u{fffd}b");
    assert_eq!(Version::from_native(1, 2, b"v1") , Version::from_native(1, 2, b"v1\0"));
}

#[test]
fn native_returns_become_results() {
    assert_eq!(sys_result(0, 5), Ok(5));
    assert_eq!(sys_result(17, "x"), Ok("x"));
    assert_eq!(sys_result(-22, ()), Err(Error::Nix(Errno::EINVAL)));
    assert_eq!(sys_result(-2, 1), Err(Error::Nix(Errno::ENOENT)));
    assert_eq!(sys_result(-1_000_000, 1), Err(Error::Nix(Errno::UnknownErrno)));
    assert_eq!(sys_result(i32::MIN, 1), Err(Error::Nix(Errno::from_raw(i32::MIN))));
    assert_eq!(sys_result_count(0), Ok(0));
    assert_eq!(sys_result_count(4096), Ok(4096));
    assert_eq!(sys_result_count(-9), Err(Error::Nix(Errno::EBADF)));
    assert_eq!(sys_result_count(-110), Err(Error::Nix(Errno::ETIMEDOUT)));
    assert_eq!(sys_result_count(isize::MIN), Err(Error::Nix(Errno::from_raw(i32::MAX))));
}

#[test]
fn native_texts_become_strings() {
    assert_eq!(cstring_opt(None), None);
    assert_eq!(cstring_opt(Some(&b"voltage0\0junk"[..])), Some("voltage0".to_string()));
    assert_eq!(cstring_opt(Some(&b"caf\xc3\xa9"[..])), Some("caf\u{e9}".to_string()));
    assert_eq!(cstring_opt(Some(&b"\xff\0"[..])), Some(String::new()));
    assert_eq!(cstring_opt(Some(&b""[..])), Some(String::new()));

    assert_eq!(text_from_buf(4, b"100\0\0\0"), Ok("100".to_string()));
    assert_eq!(text_from_buf(0, b"\0"), Ok(String::new()));
    assert_eq!(text_from_buf(3, b"abc"), Ok("abc".to_string()));
    assert_eq!(text_from_buf(2, b"\xc3\x28\0"), Err(Error::StringConversionError));
    assert_eq!(text_from_buf(-2, b"100\0"), Err(Error::Nix(Errno::ENOENT)));
    let big = vec![b'7'; industrial_io::ATTR_BUF_SIZE];
    assert_eq!(text_from_buf(16384, &big).unwrap().len(), 16384);
}

#[test]
fn errors_have_their_text() {
    assert_eq!(Error::StringConversionError.message(), "String conversion error");
    assert_eq!(Error::WrongDataType.message(), "Wrong data type");
    assert_eq!(Error::BadReturnSize.message(), "Bad return size");
    assert_eq!(Error::InvalidIndex.message(), "Invalid index");
    assert_eq!(Error::General("No suitable trigger".to_string()).message(), "No suitable trigger");
    assert_eq!(
        Error::NulError(12).message(),
        "nul byte found in provided data at position: 12"
    );
    assert_eq!(Error::Nix(Errno::EINVAL).message(), format!("{}", Errno::EINVAL));
    assert_eq!(Error::Nix(Errno::EINVAL).message(), "EINVAL: Invalid argument");
    assert_ne!(Error::Nix(Errno::EINVAL).message(), Error::Nix(Errno::ENOENT).message());
}

#[test]
fn a_format_gives_its_byte_length_and_type() {
    let f = format(16, 12, 4, true, true);
    assert_eq!(f.length(), 16);
    assert_eq!(f.bits(), 12);
    assert_eq!(f.shift(), 4);
    assert!(f.is_signed());
    assert!(!f.is_fully_defined());
    assert!(f.is_big_endian());
    assert!(f.with_scale());
    assert_eq!(f64::from_bits(f.scale_bits()), 1.0);
    assert_eq!(f.repeat(), 1);
    assert_eq!(f.byte_length(), 2);
    assert_eq!(f.type_of(), Some(SampleType::I16));

    assert_eq!(format(8, 8, 0, false, false).type_of(), Some(SampleType::U8));
    assert_eq!(format(8, 8, 0, true, false).type_of(), Some(SampleType::I8));
    assert_eq!(format(16, 16, 0, false, false).type_of(), Some(SampleType::U16));
    assert_eq!(format(32, 32, 0, true, false).type_of(), Some(SampleType::I32));
    assert_eq!(format(32, 32, 0, false, false).type_of(), Some(SampleType::U32));
    assert_eq!(format(64, 64, 0, true, false).type_of(), Some(SampleType::I64));
    assert_eq!(format(64, 64, 0, false, false).type_of(), Some(SampleType::U64));
    assert_eq!(format(24, 24, 0, false, false).byte_length(), 3);
    assert_eq!(format(24, 24, 0, false, false).type_of(), None);
    assert_eq!(format(7, 7, 0, false, false).byte_length(), 0);
    assert_eq!(format(7, 7, 0, false, false).type_of(), None);
    assert_eq!(format(15, 12, 0, false, false).byte_length(), 1);

    let quad = DataFormat::new(16, 16, 0, true, true, false, false, 0, 4);
    assert_eq!(quad.byte_length(), 8);
    assert_eq!(quad.type_of(), Some(SampleType::I64));
    let wide = DataFormat::new(u32::MAX, 0, 0, false, true, false, false, 0, u32::MAX);
    assert_eq!(wide.byte_length_wide(), 536870911u64 * 4294967295u64);
    assert_eq!(wide.type_of(), None);
}

#[test]
fn a_sample_type_has_size_and_sign() {
    assert_eq!(SampleType::I8.size(), 1);
    assert_eq!(SampleType::U16.size(), 2);
    assert_eq!(SampleType::I32.size(), 4);
    assert_eq!(SampleType::U64.size(), 8);
    assert!(SampleType::I64.is_signed());
    assert!(!SampleType::U8.is_signed());
    assert_eq!(SampleType::of(true, 2), Some(SampleType::I16));
    assert_eq!(SampleType::of(false, 4), Some(SampleType::U32));
    assert_eq!(SampleType::of(false, 3), None);
    assert_eq!(SampleType::of(true, 0), None);
}

#[test]
fn a_channel_type_has_its_code() {
    assert_eq!(ChannelType::Voltage.code(), 0);
    assert_eq!(ChannelType::Temp.code(), 9);
    assert_eq!(ChannelType::Timestamp.code(), 13);
    assert_eq!(ChannelType::Gravity.code(), 31);
    assert_eq!(ChannelType::Unknown.code(), 0x7fff_ffff);
    assert_eq!(ChannelType::from_code(3), ChannelType::Accel);
    assert_eq!(ChannelType::from_code(32), ChannelType::Unknown);
    for code in 0..32u32 {
        assert_eq!(ChannelType::from_code(code).code(), code);
    }
}

#[test]
fn samples_are_converted_by_the_format() {
    // 12 valid bits in 16, shifted up by 4, big-endian, signed.
    let mut chan = Channel::new(
        "accel_x",
        None,
        Direction::Input,
        true,
        0,
        ChannelType::Accel,
        format(16, 12, 4, true, true),
    );
    chan.enable();
    // The hardware sent the bytes 0xFF 0xF0: read on the host as 0xF0FF.
    let raw = 0xF0FFu16 as i16;
    assert_eq!(chan.convert(raw), -1);
    // 0x7F 0xF0 is 2047.
    assert_eq!(chan.convert(0xF07Fu16 as i16), 2047);
    // 0x80 0x00 is -2048.
    assert_eq!(chan.convert(0x0080i16), -2048);
    // A value of another type comes back as it is.
    assert_eq!(chan.convert(0xF0FFu16), 0xF0FF);
    assert_eq!(chan.convert(0x1234_5678i32), 0x1234_5678);
    assert_eq!(chan.convert_inverse(7u8), 7);
    // The way back: 2047 becomes 0x7F 0xF0, read on the host as 0xF07F.
    assert_eq!(chan.convert_inverse(2047i16), 0xF07Fu16 as i16);
    assert_eq!(chan.convert_inverse(-1i16), 0xF0FFu16 as i16);

    let plain = Channel::new(
        "voltage1",
        None,
        Direction::Input,
        true,
        1,
        ChannelType::Voltage,
        format(16, 12, 0, false, false),
    );
    assert_eq!(plain.convert(0xFABCu16), 0x0ABC);
    assert_eq!(plain.convert_inverse(0xFABCu16), 0x0ABC);
    let full = Channel::new(
        "voltage2",
        None,
        Direction::Input,
        true,
        2,
        ChannelType::Voltage,
        DataFormat::new(32, 32, 0, false, true, true, false, 0, 1),
    );
    assert_eq!(full.convert(0x1122_3344u32), 0x4433_2211);
    assert_eq!(full.convert_inverse(0x1122_3344u32), 0x4433_2211);
    let pair = Channel::new(
        "quaternion",
        None,
        Direction::Input,
        true,
        3,
        ChannelType::Rot,
        DataFormat::new(16, 16, 0, true, true, true, false, 0, 2),
    );
    assert_eq!(pair.convert(0x1122_3344i32), 0x2211_4433);
}

#[test]
fn a_native_read_is_settled() {
    assert_eq!(finish_read(vec![1u16, 2, 3, 4], 8, 8, 2), Ok(vec![1, 2, 3, 4]));
    assert_eq!(finish_read(vec![1u16, 2, 3, 4], 5, 8, 2), Ok(vec![1, 2]));
    assert_eq!(finish_read(vec![1u16, 2, 3, 4], 0, 8, 2), Ok(vec![]));
    assert_eq!(finish_read(vec![1u16, 2, 3, 4], 9, 8, 2), Err(Error::BadReturnSize));
    assert_eq!(finish_read(vec![1u8], 3, 8, 1), Ok(vec![1]));
}

#[test]
fn a_buffer_needs_an_enabled_channel() {
    let mut dev = dummydev();
    dev.add_channel(Channel::new(
        "voltage1",
        None,
        Direction::Input,
        true,
        1,
        ChannelType::Voltage,
        format(16, 16, 0, false, false),
    ));
    dev.add_channel(Channel::new(
        "temp",
        None,
        Direction::Input,
        false,
        -2,
        ChannelType::Temp,
        format(16, 16, 0, true, false),
    ));
    // Every subset of the two scan elements.
    for mask in 0..4u32 {
        for i in 0..2 {
            if mask & (1 << i) != 0 {
                dev.channel_mut(i).enable();
            } else {
                dev.channel_mut(i).disable();
            }
        }
        let res = dev.create_buffer(4, false);
        assert_eq!(res.is_err(), mask == 0, "mask {}", mask);
        assert_eq!(dev.has_enabled_channel(), mask != 0);
        if mask == 0 {
            assert_eq!(res.unwrap_err(), Error::General("No channels enabled".to_string()));
        }
    }
    // A channel that is no scan element cannot be enabled.
    dev.channel_mut(0).disable();
    dev.channel_mut(1).disable();
    dev.channel_mut(2).enable();
    assert!(!dev.get_channel(2).unwrap().is_enabled());
    assert!(dev.create_buffer(4, false).is_err());
    assert!(dev.is_buffer_capable());
    assert!(!timer0().is_buffer_capable());
}

#[test]
fn a_triggered_device_needs_its_trigger() {
    let mut dev = Device::new("iio:device3", Some("adc"), None, false, true);
    dev.add_channel(voltage0());
    dev.channel_mut(0).enable();
    assert_eq!(
        dev.create_buffer(4, false).unwrap_err(),
        Error::General("No trigger set".to_string())
    );
    assert_eq!(dev.set_trigger(&dummydev()), Err(Error::Nix(Errno::EINVAL)));
    assert_eq!(dev.trigger(), None);
    assert_eq!(dev.set_trigger(&timer0()), Ok(()));
    assert_eq!(dev.trigger(), Some("trigger0".to_string()));
    assert!(dev.create_buffer(4, false).is_ok());
    assert_eq!(dev.remove_trigger(), Ok(()));
    assert!(dev.create_buffer(4, false).is_err());
    assert!(timer0().is_trigger());
    assert!(!dev.is_trigger());
}

#[test]
fn a_buffer_too_large_for_the_host_is_refused() {
    let mut dev = dummydev();
    dev.add_channel(Channel::new(
        "voltage1",
        None,
        Direction::Input,
        true,
        1,
        ChannelType::Voltage,
        format(64, 64, 0, false, false),
    ));
    dev.channel_mut(0).enable();
    dev.channel_mut(1).enable();
    assert_eq!(dev.sample_size(), Ok(9));
    assert_eq!(dev.create_buffer(usize::MAX / 4, false).unwrap_err(), Error::Nix(Errno::ENOMEM));
}

#[test]
fn the_sample_size_is_the_sum_of_the_enabled_channels() {
    let mut dev = Device::new("iio:device1", Some("imu"), None, false, false);
    for (i, bits) in [8u32, 16, 32, 64].iter().enumerate() {
        dev.add_channel(Channel::new(
            &format!("ch{}", i),
            None,
            Direction::Input,
            true,
            i as i32,
            ChannelType::Voltage,
            format(*bits, *bits, 0, false, false),
        ));
    }
    assert_eq!(dev.sample_size(), Ok(0));
    dev.channel_mut(1).enable();
    assert_eq!(dev.sample_size(), Ok(2));
    dev.channel_mut(3).enable();
    assert_eq!(dev.sample_size(), Ok(10));
    dev.channel_mut(0).enable();
    dev.channel_mut(2).enable();
    assert_eq!(dev.sample_size(), Ok(15));
    assert_eq!(dev.offset_of(0), Some(0));
    assert_eq!(dev.offset_of(1), Some(1));
    assert_eq!(dev.offset_of(2), Some(3));
    assert_eq!(dev.offset_of(3), Some(7));
    assert_eq!(dev.offset_of(4), Some(15));
    dev.set_num_kernel_buffers(8).unwrap();
    assert_eq!(dev.num_kernel_buffers(), 8);
    assert_eq!(dev.set_num_kernel_buffers(0), Err(Error::Nix(Errno::EINVAL)));
    assert_eq!(dev.num_kernel_buffers(), 8);
}

#[test]
fn channels_are_found_by_name_and_direction() {
    let mut dev = dummydev();
    dev.add_channel(Channel::new(
        "voltage0",
        Some("dac_out"),
        Direction::Output,
        true,
        0,
        ChannelType::Voltage,
        format(16, 16, 0, false, false),
    ));
    let input = dev.find_channel("voltage0", Direction::Input).unwrap();
    assert!(!input.is_output());
    assert_eq!(input.id(), Some("voltage0".to_string()));
    assert_eq!(input.name(), None);
    assert_eq!(input.index(), Ok(0));
    assert!(input.is_scan_element());
    assert_eq!(input.channel_type(), ChannelType::Voltage);
    let output = dev.find_output_channel("dac_out").unwrap();
    assert!(output.is_output());
    assert_eq!(output.name(), Some("dac_out".to_string()));
    assert!(dev.find_input_channel("dac_out").is_none());
    assert!(dev.find_input_channel("voltage0").is_some());
    assert!(dev.find_output_channel("voltage1").is_none());
    assert!(dev.find_channel("voltage0\0", Direction::Input).is_none());
    assert_eq!(dev.channel_position("voltage0", Direction::Output), Some(1));
    assert_eq!(dev.position_of(&output), Some(1));
    assert_eq!(dev.num_channels(), 2);
    let mut it = dev.channels();
    assert_eq!(it.next().unwrap().is_output(), false);
    assert_eq!(it.next().unwrap().is_output(), true);
    assert!(it.next().is_none());
    let gone = Channel::new(
        "temp",
        None,
        Direction::Input,
        false,
        -2,
        ChannelType::Temp,
        format(16, 16, 0, true, false),
    );
    assert_eq!(gone.index(), Err(Error::Nix(Errno::ENOENT)));
    assert_eq!(dev.position_of(&gone), None);
}

#[test]
fn attributes_are_read_and_written() {
    let mut dev = dummydev();
    assert!(dev.has_attrs());
    assert_eq!(dev.get_attr(0), Ok("sampling_frequency".to_string()));
    assert_eq!(dev.find_attr("sampling_frequency"), Some("sampling_frequency".to_string()));
    assert_eq!(dev.find_attr("nothing"), None);
    assert!(dev.has_attr("current_timestamp_clock"));
    assert!(!dev.has_attr("nothing"));
    assert!(!dev.has_attr("sampling_frequency\0"));
    assert_eq!(dev.attr_read_int("sampling_frequency"), Ok(100));
    assert_eq!(dev.attr_read::<u32>("sampling_frequency"), Ok(100));
    assert_eq!(dev.attr_read_str("current_timestamp_clock"), Ok("realtime\n".to_string()));
    assert_eq!(
        dev.attr_read::<i32>("current_timestamp_clock"),
        Err(Error::StringConversionError)
    );
    assert_eq!(dev.attr_read_bool("current_timestamp_clock"), Ok(true));
    assert_eq!(dev.attr_read_str("nothing"), Err(Error::Nix(Errno::ENOENT)));
    assert_eq!(dev.attr_read_str("no\0thing"), Err(Error::NulError(2)));
    assert_eq!(dev.attr_read_str("\u{e9}t\u{e9}\0"), Err(Error::NulError(5)));
    assert_eq!(dev.attr_write_str("nothing", "1"), Err(Error::Nix(Errno::ENOENT)));
    assert_eq!(dev.attr_write_str("sampling_frequency", "1\0"), Err(Error::NulError(1)));
    assert_eq!(dev.attr_write_str("\0", "1\0"), Err(Error::NulError(0)));
    assert_eq!(dev.attr_read_int("sampling_frequency"), Ok(100));

    assert_eq!(dev.attr_write_int("sampling_frequency", 250), Ok(()));
    assert_eq!(dev.attr_read_str("sampling_frequency"), Ok("250".to_string()));
    assert_eq!(dev.attr_read_int("sampling_frequency"), Ok(250));
    assert_eq!(dev.attr_write_bool("sampling_frequency", true), Ok(()));
    assert_eq!(dev.attr_read_str("sampling_frequency"), Ok("1".to_string()));
    assert_eq!(dev.attr_read_bool("sampling_frequency"), Ok(true));
    assert_eq!(dev.attr_write("sampling_frequency", false), Ok(()));
    assert_eq!(dev.attr_read_str("sampling_frequency"), Ok("0".to_string()));
    assert_eq!(dev.attr_read::<bool>("sampling_frequency"), Ok(false));
    assert_eq!(dev.attr_write("sampling_frequency", u128::MAX), Ok(()));
    assert_eq!(dev.attr_read::<u128>("sampling_frequency"), Ok(u128::MAX));
    assert_eq!(dev.attr_read::<u64>("sampling_frequency"), Err(Error::StringConversionError));
    assert_eq!(dev.attr_write("sampling_frequency", "fast"), Ok(()));
    assert_eq!(dev.attr_read::<String>("sampling_frequency"), Ok("fast".to_string()));
    // An attribute that is added again gets the value: no name is twice.
    dev.add_attr("current_timestamp_clock", "realtime\n");
    assert_eq!(dev.num_attrs(), 2);
    assert!(!attr_differs(dev.attrs(), "sampling_frequency", "fast"));
    assert!(attr_differs(dev.attrs(), "sampling_frequency", "slow"));
    assert!(attr_differs(dev.attrs(), "nothing", "fast"));
    assert!(attr_differs(dev.attrs(), "sampling_frequency\0", "fast"));
    // The same value twice leaves the attributes as once.
    assert_eq!(dev.attr_write("sampling_frequency", "fast"), Ok(()));
    assert_eq!(
        dev.attr_read_all(),
        Ok(vec![
            ("sampling_frequency".to_string(), "fast".to_string()),
            ("current_timestamp_clock".to_string(), "realtime\n".to_string()),
        ])
    );

    let mut chan = dev.get_channel(0).unwrap();
    assert_eq!(chan.num_attrs(), 3);
    assert!(chan.has_attrs());
    assert!(chan.has_attr("raw"));
    assert_eq!(chan.find_attr("scale"), Some("scale".to_string()));
    assert_eq!(chan.get_attr(2), Ok("offset".to_string()));
    assert_eq!(chan.get_attr(3), Err(Error::InvalidIndex));
    assert_eq!(chan.attr_read_int("raw"), Ok(17));
    assert_eq!(chan.attr_read_bool("offset"), Ok(false));
    assert_eq!(chan.attr_write("raw", -5i64), Ok(()));
    assert_eq!(chan.attr_read::<i64>("raw"), Ok(-5));
    assert_eq!(chan.attr_write_int("raw", 6), Ok(()));
    assert_eq!(chan.attr_write_bool("offset", true), Ok(()));
    assert_eq!(chan.attr_write_str("scale", "2.5"), Ok(()));
    assert_eq!(
        chan.attr_read_all(),
        Ok(vec![
            ("raw".to_string(), "6".to_string()),
            ("scale".to_string(), "2.5".to_string()),
            ("offset".to_string(), "1".to_string()),
        ])
    );
    let mut it = chan.attrs();
    assert_eq!(it.next(), Some("raw".to_string()));
    assert_eq!(it.next(), Some("scale".to_string()));
    assert_eq!(it.next(), Some("offset".to_string()));
    assert_eq!(it.next(), None);
    // The device still has the channel as it was.
    assert_eq!(dev.get_channel(0).unwrap().attr_read_int("raw"), Ok(17));
}

#[test]
fn a_scan_lists_the_contexts_found() {
    let mut scan = ScanContext::new_usb(11).unwrap();
    assert_eq!(scan.backend(), "usb");
    assert_eq!(scan.handle(), 11);
    assert_eq!(scan.len(), 0);
    assert!(scan.iter().next().is_none());
    scan.scanned(
        3,
        vec![
            (Some("usb:1.2.5".to_string()), Some("0456:b673 (PlutoSDR)".to_string())),
            (Some("usb:1.3.5".to_string()), Some("0456:b672 (M2k)".to_string())),
            (Some("usb:1.4.5".to_string()), None),
        ],
    );
    assert_eq!(scan.len(), 3);
    let mut it = scan.iter();
    assert_eq!(it.next(), Some(("usb:1.2.5".to_string(), "0456:b673 (PlutoSDR)".to_string())));
    assert_eq!(it.next(), Some(("usb:1.3.5".to_string(), "0456:b672 (M2k)".to_string())));
    assert_eq!(it.next(), None);
    assert_eq!(it.next(), None);
    assert_eq!(scan.get_info(2), None);
    assert_eq!(scan.get_info(3), None);
    scan.scanned(-19, Vec::new());
    assert_eq!(scan.len(), 0);

    assert_eq!(ScanContext::new_local(1).unwrap().backend(), "local");
    assert_eq!(ScanContext::new_network(1).unwrap().backend(), "ip");
    assert!(ScanContext::new_local(0).is_err());
    assert!(ScanContext::new_network(0).is_err());
    assert!(ScanContext::new_usb(0).is_err());
    assert!(matches!(ScanContext::new("usb", 0), Err(Error::Nix(_))));
    assert!(matches!(ScanContext::new("u\0sb", 1), Err(Error::NulError(1))));
}

#[test]
fn a_device_from_a_context_is_a_copy_to_work_on() {
    let ctx = dummy();
    let mut dev = ctx.get_device(0).unwrap();
    dev.channel_mut(0).enable();
    assert!(dev.has_enabled_channel());
    // The session itself does not change.
    assert!(!ctx.get_device(0).unwrap().has_enabled_channel());
    ctx.destroy();
}

#[test]
fn waiting_follows_timeout_and_mode() {
    let ctx = dummy();
    let mut dev = ctx.find_device(DEV_NAME).unwrap();
    dev.channel_mut(0).enable();
    let mut buf = dev.create_buffer(4, false).unwrap();
    // A timeout of zero: the refill waits without a limit for samples
    // that never come; it neither fails nor polls.
    ctx.set_timeout(Duration::ZERO).unwrap();
    assert_eq!(buf.wait(ctx.timeout_ms()), Wait::Forever);
    ctx.set_timeout(Duration::from_secs(2)).unwrap();
    assert_eq!(buf.wait(ctx.timeout_ms()), Wait::Millis(2000));
    assert!(buf.is_blocking());
    buf.set_blocking_mode(false).unwrap();
    assert_eq!(buf.wait(ctx.timeout_ms()), Wait::Poll);
    assert_eq!(buf.wait(0), Wait::Poll);
    buf.set_blocking_mode(true).unwrap();
    // The wait can be cancelled.
    buf.cancel();
    assert_eq!(buf.wait(0), Wait::Cancelled);
    assert_eq!(buf.wait(ctx.timeout_ms()), Wait::Cancelled);
}
