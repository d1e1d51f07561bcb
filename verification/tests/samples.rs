use industrial_io::buffer::{gather, scatter, Buffer};
use industrial_io::channel::{Channel, ChannelType, DataFormat, Direction};
use industrial_io::context::{Context, InnerContext};
use industrial_io::device::Device;
use industrial_io::errors::Error;
use industrial_io::sample::{read_be, read_le, write_be, write_le, Sample, SampleType};
use nix::errno::Errno;

fn channel(id: &str, dir: Direction, format: DataFormat) -> Channel {
    Channel::new(id, None, dir, true, 0, ChannelType::Voltage, format)
}

fn plain(bits: u32, signed: bool) -> DataFormat {
    DataFormat::new(bits, bits, 0, signed, true, false, true, 1.0f64.to_bits(), 1)
}

// One device "dummydev" with one input channel "voltage0" of 8 bits,
// unsigned, with a scale of one and no offset.
fn dummy() -> Context {
    let mut chan = channel("voltage0", Direction::Input, plain(8, false));
    chan.add_attr("scale", "1.0");
    chan.add_attr("offset", "0.0");
    let mut dev = Device::new("iio:device0", Some("dummydev"), None, false, false);
    dev.add_channel(chan);
    let mut inner = InnerContext::new(1).unwrap();
    inner.add_device(dev);
    Context::from_inner(inner)
}

fn mixed() -> Device {
    let mut dev = Device::new("iio:device1", Some("mixed"), None, false, false);
    dev.add_channel(channel("voltage0", Direction::Input, plain(16, false)));
    dev.add_channel(channel("voltage1", Direction::Input, plain(16, true)));
    dev.add_channel(channel("timestamp", Direction::Input, plain(32, false)));
    dev
}

fn drain<T: Sample>(buf: &Buffer, chan: &Channel) -> Vec<T> {
    let mut it = buf.channel_iter::<T>(chan);
    let mut out = Vec::new();
    while let Some(v) = it.next() {
        out.push(v);
    }
    out
}

#[test]
fn four_samples_come_back_as_injected() {
    let ctx = dummy();
    let mut dev = ctx.find_device("dummydev").unwrap();
    let chan = dev.find_input_channel("voltage0").unwrap();
    assert_eq!(chan.type_of(), Some(SampleType::U8));
    assert_eq!(dev.position_of(&chan), Some(0));
    dev.channel_mut(0).enable();
    let mut buf = dev.create_buffer(4, false).unwrap();
    assert_eq!(buf.capacity(), 4);
    assert_eq!(buf.step(), 1);
    assert!(!buf.is_cyclic());
    assert_eq!(buf.device().id(), Some("iio:device0".to_string()));
    assert_eq!(drain::<u8>(&buf, &chan), vec![0, 0, 0, 0]);

    assert_eq!(buf.refill(4, &[17, 42, 0, 255]), Ok(4));
    assert_eq!(drain::<u8>(&buf, &chan), vec![17, 42, 0, 255]);
    assert_eq!(chan.read::<u8>(&buf), Ok(vec![17, 42, 0, 255]));
    assert_eq!(chan.read_raw::<u8>(&buf), Ok(vec![17, 42, 0, 255]));
    assert_eq!(buf.bytes(), &[17, 42, 0, 255]);
}

#[test]
fn a_short_refill_gives_fewer_samples() {
    let ctx = dummy();
    let mut dev = ctx.get_device(0).unwrap();
    dev.channel_mut(0).enable();
    let chan = dev.get_channel(0).unwrap();
    let mut buf = dev.create_buffer(4, false).unwrap();
    assert_eq!(buf.refill(2, &[5, 6]), Ok(2));
    assert_eq!(drain::<u8>(&buf, &chan), vec![5, 6]);
    assert_eq!(chan.read::<u8>(&buf), Ok(vec![5, 6]));
    assert_eq!(buf.refill(0, &[]), Ok(0));
    assert_eq!(drain::<u8>(&buf, &chan), Vec::<u8>::new());
    // More than the memory holds: the rest is left out.
    assert_eq!(buf.refill(6, &[1, 2, 3, 4, 5, 6]), Ok(6));
    assert_eq!(drain::<u8>(&buf, &chan), vec![1, 2, 3, 4]);
    // A failed refill leaves the samples as they were.
    assert_eq!(buf.refill(-110, &[9, 9, 9, 9]), Err(Error::Nix(Errno::ETIMEDOUT)));
    assert_eq!(drain::<u8>(&buf, &chan), vec![1, 2, 3, 4]);
}

#[test]
fn a_channel_of_another_width_is_not_read_as_u32() {
    let mut dev = Device::new("iio:device2", Some("adc16"), None, false, false);
    dev.add_channel(channel("voltage0", Direction::Input, plain(16, false)));
    dev.channel_mut(0).enable();
    let chan = dev.get_channel(0).unwrap();
    let mut buf = dev.create_buffer(4, false).unwrap();
    assert_eq!(buf.step(), 2);
    buf.refill(8, &[1, 0, 2, 0, 3, 0, 4, 0]).unwrap();

    assert_eq!(chan.read::<u32>(&buf), Err(Error::WrongDataType));
    assert_eq!(chan.read_raw::<u32>(&buf), Err(Error::WrongDataType));
    assert_eq!(chan.read::<i16>(&buf), Err(Error::WrongDataType));
    assert_eq!(chan.read::<u8>(&buf), Err(Error::WrongDataType));
    assert_eq!(chan.read::<u16>(&buf), Ok(vec![1, 2, 3, 4]));

    // No whole u32 fits in a row of two bytes: the iteration has no
    // stride to move by, and yields nothing.
    assert_eq!(drain::<u32>(&buf, &chan), Vec::<u32>::new());
    // A u8 fits twice in a row: the iteration moves by two bytes.
    assert_eq!(drain::<u8>(&buf, &chan), vec![1, 2, 3, 4]);
    assert_eq!(drain::<u16>(&buf, &chan), vec![1, 2, 3, 4]);
    assert_eq!(drain::<i16>(&buf, &chan), vec![1, 2, 3, 4]);
}

#[test]
fn an_iteration_with_a_wider_type_stays_within_the_samples() {
    let mut dev = mixed();
    dev.channel_mut(0).enable();
    dev.channel_mut(1).enable();
    dev.channel_mut(2).enable();
    let first = dev.get_channel(0).unwrap();
    let second = dev.get_channel(1).unwrap();
    let stamp = dev.get_channel(2).unwrap();
    let mut buf = dev.create_buffer(2, false).unwrap();
    assert_eq!(buf.step(), 8);
    let bytes = [0x01, 0x00, 0xff, 0xff, 0x78, 0x56, 0x34, 0x12, 0x02, 0x00, 0xfe, 0xff, 0x79, 0x56, 0x34, 0x12];
    assert_eq!(buf.refill(16, &bytes), Ok(16));
    assert_eq!(buf.first(&first), 0);
    assert_eq!(buf.first(&second), 2);
    assert_eq!(buf.first(&stamp), 4);
    assert_eq!(drain::<u16>(&buf, &first), vec![1, 2]);
    assert_eq!(drain::<i16>(&buf, &second), vec![-1, -2]);
    assert_eq!(drain::<u32>(&buf, &stamp), vec![0x12345678, 0x12345679]);
    // Read as 32 bits, the first channel takes in its neighbour.
    assert_eq!(drain::<u32>(&buf, &first), vec![0xffff0001, 0xfffe0002]);
    // Read as 64 bits from the third channel, only one whole value lies
    // before the end of the samples.
    assert_eq!(drain::<u64>(&buf, &stamp), vec![0xfffe000212345678]);
    assert_eq!(stamp.read::<u32>(&buf), Ok(vec![0x12345678, 0x12345679]));
    assert_eq!(second.read::<i16>(&buf), Ok(vec![-1, -2]));
    assert_eq!(second.read::<u16>(&buf), Err(Error::WrongDataType));
}

#[test]
fn a_channel_that_was_not_enabled_has_no_samples() {
    let mut dev = mixed();
    dev.channel_mut(1).enable();
    let first = dev.get_channel(0).unwrap();
    let second = dev.get_channel(1).unwrap();
    let mut buf = dev.create_buffer(3, false).unwrap();
    assert_eq!(buf.step(), 2);
    buf.refill(6, &[1, 0, 2, 0, 3, 0]).unwrap();
    assert_eq!(drain::<u16>(&buf, &first), Vec::<u16>::new());
    assert_eq!(first.read::<u16>(&buf), Ok(vec![]));
    assert_eq!(drain::<i16>(&buf, &second), vec![1, 2, 3]);
    // Enabling a channel later does not change the buffer.
    dev.channel_mut(0).enable();
    assert_eq!(dev.sample_size(), Ok(4));
    assert_eq!(buf.step(), 2);
    assert_eq!(buf.device().sample_size(), Ok(2));
    let stranger = channel("voltage9", Direction::Input, plain(16, false));
    assert_eq!(drain::<u16>(&buf, &stranger), Vec::<u16>::new());
}

#[test]
fn the_iteration_yields_a_sample_for_each_row() {
    for cap in [0usize, 1, 2, 7, 64] {
        let mut dev = mixed();
        dev.channel_mut(0).enable();
        dev.channel_mut(1).enable();
        let chan = dev.get_channel(1).unwrap();
        let mut buf = dev.create_buffer(cap, false).unwrap();
        let fresh: Vec<u8> = (0..cap * 4).map(|i| i as u8).collect();
        assert_eq!(buf.refill(fresh.len() as isize, &fresh), Ok(fresh.len()));
        let got = drain::<i16>(&buf, &chan);
        assert_eq!(got.len(), cap);
        for (k, v) in got.iter().enumerate() {
            let at = 2 + 4 * k;
            assert_eq!(*v, i16::from_le_bytes([fresh[at], fresh[at + 1]]));
        }
        assert_eq!(chan.read_raw::<i16>(&buf).unwrap(), got);
    }
}

#[test]
fn read_converts_each_sample() {
    let mut dev = Device::new("iio:device4", Some("accel"), None, false, false);
    dev.add_channel(channel(
        "accel_x",
        Direction::Input,
        DataFormat::new(16, 12, 4, true, false, true, true, 1.0f64.to_bits(), 1),
    ));
    dev.channel_mut(0).enable();
    let chan = dev.get_channel(0).unwrap();
    let mut buf = dev.create_buffer(3, false).unwrap();
    buf.refill(6, &[0xff, 0xf0, 0x7f, 0xf0, 0x80, 0x00]).unwrap();
    assert_eq!(chan.read::<i16>(&buf), Ok(vec![-1, 2047, -2048]));
    assert_eq!(
        chan.read_raw::<i16>(&buf),
        Ok(vec![0xf0ffu16 as i16, 0xf07fu16 as i16, 0x0080])
    );
    let raw = chan.read_raw::<i16>(&buf).unwrap();
    let converted: Vec<i16> = raw.iter().map(|v| chan.convert(*v)).collect();
    assert_eq!(chan.read::<i16>(&buf).unwrap(), converted);
}

#[test]
fn samples_are_written_to_their_rows() {
    let mut dev = Device::new("iio:device5", Some("dac"), None, false, false);
    dev.add_channel(channel("voltage0", Direction::Output, plain(16, false)));
    dev.add_channel(channel(
        "voltage1",
        Direction::Output,
        DataFormat::new(16, 12, 4, false, false, true, false, 0, 1),
    ));
    dev.channel_mut(0).enable();
    dev.channel_mut(1).enable();
    let first = dev.get_channel(0).unwrap();
    let second = dev.get_channel(1).unwrap();
    let mut buf = dev.create_buffer(3, true).unwrap();
    assert!(buf.is_cyclic());
    assert_eq!(first.write::<u16>(&mut buf, &[0x0102, 0x0304]), Ok(2));
    assert_eq!(second.write::<u16>(&mut buf, &[0x0abc, 0x0001, 0x0002, 0x0003]), Ok(3));
    assert_eq!(
        buf.bytes(),
        &[0x02, 0x01, 0xab, 0xc0, 0x04, 0x03, 0x00, 0x10, 0x00, 0x00, 0x00, 0x20]
    );
    assert_eq!(second.write_raw::<u16>(&mut buf, &[0x1122]), Ok(1));
    assert_eq!(&buf.bytes()[..4], &[0x02, 0x01, 0x22, 0x11]);
    assert_eq!(second.read::<u16>(&buf), Ok(vec![0x0221, 0x0001, 0x0002]));
    assert_eq!(first.write::<i16>(&mut buf, &[1]), Err(Error::WrongDataType));
    assert_eq!(first.write_raw::<u32>(&mut buf, &[1]), Err(Error::WrongDataType));
    assert_eq!(first.write::<u16>(&mut buf, &[]), Ok(0));

    assert_eq!(buf.push(12), Ok(12));
    assert_eq!(buf.push(-5), Err(Error::Nix(Errno::EIO)));
    assert_eq!(buf.plan_partial(2), Ok(()));
    assert_eq!(buf.bytes().len(), 8);
    assert_eq!(buf.push_partial(2, 8), Ok(8));
    assert_eq!(buf.plan_partial(4), Err(Error::Nix(Errno::EINVAL)));
    assert_eq!(buf.push_partial(4, 16), Err(Error::Nix(Errno::EINVAL)));
    assert_eq!(buf.bytes().len(), 8);
    assert_eq!(first.write::<u16>(&mut buf, &[9, 9, 9]), Ok(2));
}

#[test]
fn cancelling_twice_is_cancelling_once() {
    let ctx = dummy();
    let mut dev = ctx.get_device(0).unwrap();
    dev.channel_mut(0).enable();
    let chan = dev.get_channel(0).unwrap();
    let mut once = dev.create_buffer(4, false).unwrap();
    let mut twice = dev.create_buffer(4, false).unwrap();
    once.refill(4, &[1, 2, 3, 4]).unwrap();
    twice.refill(4, &[1, 2, 3, 4]).unwrap();
    assert!(!once.is_cancelled());
    once.cancel();
    twice.cancel();
    twice.cancel();
    for buf in [&mut once, &mut twice] {
        assert!(buf.is_cancelled());
        assert_eq!(buf.refill(4, &[5, 6, 7, 8]), Err(Error::Nix(Errno::EBADF)));
        assert_eq!(buf.push(4), Err(Error::Nix(Errno::EBADF)));
        assert_eq!(buf.push_partial(1, 1), Err(Error::Nix(Errno::EBADF)));
        assert_eq!(buf.capacity(), 4);
        assert_eq!(buf.bytes(), &[1, 2, 3, 4]);
        assert_eq!(drain::<u8>(buf, &chan), vec![1, 2, 3, 4]);
    }
}

#[test]
fn buffer_attributes_are_read_and_written() {
    let mut dev = Device::new("iio:device6", Some("adc"), None, false, false);
    dev.add_channel(channel("voltage0", Direction::Input, plain(8, false)));
    dev.add_buffer_attr("watermark", "1");
    dev.add_buffer_attr("data_available", "0");
    dev.channel_mut(0).enable();
    let mut buf = dev.create_buffer(1, false).unwrap();
    assert!(buf.has_attrs());
    assert_eq!(buf.num_attrs(), 2);
    assert_eq!(buf.get_attr(1), Ok("data_available".to_string()));
    assert_eq!(buf.get_attr(2), Err(Error::InvalidIndex));
    assert_eq!(buf.find_attr("watermark"), Some("watermark".to_string()));
    assert_eq!(buf.find_attr("length"), None);
    assert!(buf.has_attr("watermark"));
    assert!(!buf.has_attr("water\0mark"));
    assert_eq!(buf.attr_read_int("watermark"), Ok(1));
    assert_eq!(buf.attr_read_bool("data_available"), Ok(false));
    assert_eq!(buf.attr_read::<u32>("length"), Err(Error::Nix(Errno::ENOENT)));
    assert_eq!(buf.attr_write("watermark", 16u32), Ok(()));
    assert_eq!(buf.attr_read::<u32>("watermark"), Ok(16));
    assert_eq!(buf.attr_write_int("watermark", 32), Ok(()));
    assert_eq!(buf.attr_write_bool("data_available", true), Ok(()));
    assert_eq!(buf.attr_write_str("length", "4"), Err(Error::Nix(Errno::ENOENT)));
    assert_eq!(buf.attr_read_str("watermark"), Ok("32".to_string()));
    assert_eq!(
        buf.attr_read_all(),
        Ok(vec![
            ("watermark".to_string(), "32".to_string()),
            ("data_available".to_string(), "1".to_string()),
        ])
    );
    let mut it = buf.attributes();
    assert_eq!(it.next(), Some("watermark".to_string()));
    assert_eq!(it.next(), Some("data_available".to_string()));
    assert_eq!(it.next(), None);
    // The device that the buffer was made from keeps its own values.
    assert_eq!(dev.buffer_attrs()[0].value, "1");
}

#[test]
fn bytes_hold_numbers_in_both_orders() {
    let data = [0x11u8, 0x22, 0x33, 0x44, 0x55, 0x66, 0x77, 0x88, 0x99];
    assert_eq!(read_le(&data, 0, 0), 0);
    assert_eq!(read_le(&data, 1, 1), 0x22);
    assert_eq!(read_le(&data, 0, 2), 0x2211);
    assert_eq!(read_le(&data, 1, 4), 0x55443322);
    assert_eq!(read_le(&data, 1, 8), 0x9988776655443322);
    assert_eq!(read_be(&data, 0, 2), 0x1122);
    assert_eq!(read_be(&data, 1, 8), 0x2233445566778899);
    let mut out = vec![0u8; 6];
    write_le(&mut out, 1, 4, 0xaabbccdd11223344);
    assert_eq!(out, vec![0, 0x44, 0x33, 0x22, 0x11, 0]);
    write_be(&mut out, 0, 3, 0x010203);
    assert_eq!(out, vec![1, 2, 3, 0x22, 0x11, 0]);
    write_le(&mut out, 6, 0, 5);
    assert_eq!(out.len(), 6);
}

#[test]
fn sample_types_keep_their_bit_patterns() {
    assert_eq!(<i8 as Sample>::kind(), SampleType::I8);
    assert_eq!(<u64 as Sample>::kind(), SampleType::U64);
    assert_eq!((-1i8).to_raw(), 0xff);
    assert_eq!(i8::from_raw(0x80), i8::MIN);
    assert_eq!((-2i16).to_raw(), 0xfffe);
    assert_eq!(i16::from_raw(0x7fff), i16::MAX);
    assert_eq!(i32::MIN.to_raw(), 0x8000_0000);
    assert_eq!(i32::from_raw(0xffff_ffff), -1);
    assert_eq!(i64::MIN.to_raw(), 0x8000_0000_0000_0000);
    assert_eq!(i64::from_raw(u64::MAX), -1);
    assert_eq!(u8::from_raw(200), 200);
    assert_eq!(u32::MAX.to_raw(), 0xffff_ffff);
    for v in [i16::MIN, -1, 0, 1, i16::MAX] {
        assert_eq!(i16::from_raw(v.to_raw()), v);
    }
}

#[test]
fn samples_are_gathered_and_scattered_by_stride() {
    let data = [1u8, 2, 3, 4, 5, 6, 7, 8, 9, 10];
    assert_eq!(gather::<u8>(&data, 0, 10, 3, None), vec![1, 4, 7, 10]);
    assert_eq!(gather::<u16>(&data, 1, 10, 4, None), vec![0x0302, 0x0706]);
    assert_eq!(gather::<u16>(&data, 1, 9, 4, None), vec![0x0302, 0x0706]);
    assert_eq!(gather::<u16>(&data, 1, 6, 4, None), vec![0x0302]);
    assert_eq!(gather::<u8>(&data, 0, 10, 0, None), Vec::<u8>::new());
    assert_eq!(gather::<u8>(&data, 10, 10, 1, None), Vec::<u8>::new());
    assert_eq!(gather::<u8>(&data, 11, 10, 1, None), Vec::<u8>::new());
    assert_eq!(gather::<u8>(&data, 0, 11, 1, None), Vec::<u8>::new());
    assert_eq!(gather::<u8>(&data, usize::MAX, 10, usize::MAX, None), Vec::<u8>::new());
    assert_eq!(gather::<u8>(&data, 9, 10, usize::MAX, None), vec![10]);

    let mut out = vec![0u8; 8];
    assert_eq!(scatter::<u16>(&mut out, 1, 8, 3, &[0x0102, 0x0304, 0x0506, 0x0708]), 2);
    assert_eq!(out, vec![0, 2, 1, 0, 4, 3, 0, 0]);
    assert_eq!(scatter::<u16>(&mut out, 0, 8, 3, &[0x0a0b, 0x0c0d, 0x0e0f, 0x0708]), 3);
    assert_eq!(out, vec![0x0b, 0x0a, 1, 0x0d, 0x0c, 3, 0x0f, 0x0e]);
    assert_eq!(scatter::<u8>(&mut out, 0, 9, 1, &[1]), 0);
    assert_eq!(scatter::<u8>(&mut out, 0, 8, 0, &[1]), 0);
    assert_eq!(scatter::<u8>(&mut out, 7, 8, usize::MAX, &[9, 9]), 1);
    assert_eq!(out[7], 9);
}

#[test]
fn what_is_written_to_a_channel_is_read_back() {
    let mut dev = mixed();
    dev.channel_mut(0).enable();
    dev.channel_mut(1).enable();
    dev.channel_mut(2).enable();
    let first = dev.get_channel(0).unwrap();
    let second = dev.get_channel(1).unwrap();
    let stamp = dev.get_channel(2).unwrap();
    let mut buf = dev.create_buffer(3, false).unwrap();
    assert_eq!(second.write_raw::<i16>(&mut buf, &[-1, i16::MIN, i16::MAX]), Ok(3));
    assert_eq!(stamp.write_raw::<u32>(&mut buf, &[7, u32::MAX, 0x01020304]), Ok(3));
    assert_eq!(first.write_raw::<u16>(&mut buf, &[1, 2, 3]), Ok(3));
    assert_eq!(second.read_raw::<i16>(&buf), Ok(vec![-1, i16::MIN, i16::MAX]));
    assert_eq!(stamp.read_raw::<u32>(&buf), Ok(vec![7, u32::MAX, 0x01020304]));
    assert_eq!(first.read_raw::<u16>(&buf), Ok(vec![1, 2, 3]));
}

#[test]
fn a_row_that_holds_no_whole_number_of_values_makes_the_iteration_drift() {
    let mut dev = Device::new("iio:device7", Some("odd"), None, false, false);
    dev.add_channel(channel("voltage0", Direction::Input, plain(8, false)));
    dev.add_channel(channel("voltage1", Direction::Input, plain(16, false)));
    dev.channel_mut(0).enable();
    dev.channel_mut(1).enable();
    let wide = dev.get_channel(1).unwrap();
    let mut buf = dev.create_buffer(4, false).unwrap();
    assert_eq!(buf.step(), 3);
    let fresh: Vec<u8> = (0..12).collect();
    buf.refill(12, &fresh).unwrap();
    // One value of two bytes fits in a row of three: the iteration moves
    // by two bytes, and does not stay with the rows.
    assert_eq!(
        drain::<u16>(&buf, &wide),
        vec![0x0201, 0x0403, 0x0605, 0x0807, 0x0a09]
    );
    // Reading the channel goes by the rows.
    assert_eq!(wide.read::<u16>(&buf), Ok(vec![0x0201, 0x0504, 0x0807, 0x0b0a]));
}
