use xbee_zigbee::frame::{
    Address, DiscoStatus, Inbound, Outbound, RxOptions, TxOptions, TxStatus, MAC,
};
use xbee_zigbee::serializer::{
    after_poll, frame_length, stage, unpack, DeserializationError, FrameReceiver, FrameSender,
    FrameSerializer, Polled, SerializationError, Step,
};

const REQUEST_FRAME: [u8; 26] = [
    0x7E, 0x00, 0x16, 0x10, 0x01, 0x00, 0x13, 0xA2, 0x00, 0x40, 0x0A, 0x01, 0x27, 0xFF, 0xFE, 0x00,
    0x40, 0x54, 0x78, 0x32, 0x43, 0x6F, 0x6F, 0x72, 0x64, 0x95,
];

const STATUS_STREAM: [u8; 11] = [0x7E, 0x00, 0x07, 0x8B, 0x01, 0x7D, 0x84, 0x00, 0x00, 0x01, 0x71];

fn request(data: &[u8]) -> Outbound<'_> {
    Outbound::TxRequest {
        frame_id: 0x01,
        dest_addr: Address::unknown(),
        dest_mac: MAC { high: 0x0013A200, low: 0x400A0127 },
        bc_radius: 0x00,
        options: TxOptions::from_bits_truncate(TxOptions::EXTENDED_TIMEOUT),
        data,
    }
}

fn send_all<E, TX: FnMut(u8) -> nb::Result<(), E>>(
    tx: &mut TX,
    frame: &mut Outbound,
) -> Result<(), SerializationError<E>> {
    let mut sender = FrameSender::new(frame)?;
    loop {
        match sender.step(tx) {
            Step::Done(()) => return Ok(()),
            Step::Again => {}
            Step::Stop(e) => return Err(e),
        }
    }
}

fn read<E, RX: FnMut() -> nb::Result<u8, E>, C: FnMut(Inbound)>(
    rx: &mut RX,
    cont: &mut C,
) -> Result<(), DeserializationError<E>> {
    let mut receiver = FrameReceiver::new();
    loop {
        match receiver.step(rx, cont) {
            Step::Done(()) => return Ok(()),
            Step::Again => {}
            Step::Stop(e) => return Err(e),
        }
    }
}

fn framed(payload: &[u8]) -> Vec<u8> {
    let mut out = vec![0x7E, (payload.len() >> 8) as u8, payload.len() as u8];
    out.extend_from_slice(payload);
    let sum = payload.iter().fold(0u8, |acc, b| acc.wrapping_add(*b));
    out.push(0xFF - sum);
    out
}

fn read_all(stream: &[u8]) -> (Result<(), DeserializationError<()>>, usize, usize) {
    let mut taken = 0;
    let mut delivered = 0;
    let r = read(
        &mut || {
            let b = stream.get(taken).copied().ok_or(nb::Error::Other(()));
            taken += 1;
            b
        },
        &mut |_frame| {
            delivered += 1;
        },
    );
    (r, taken, delivered)
}

#[test]
fn write_test() {
    let mut frame = Outbound::TxRequest {
        frame_id: 0x01,
        dest_addr: Address::unknown(),
        dest_mac: MAC { high: 0x0013A200, low: 0x400A0127 },
        bc_radius: 0x00,
        options: TxOptions::from_bits_truncate(TxOptions::EXTENDED_TIMEOUT),
        data: &[0x54, 0x78, 0x32, 0x43, 0x6F, 0x6F, 0x72, 0x64],
    };
    let test_data = [
        0x7E, 0x00, 0x16, 0x10, 0x01, 0x00, 0x13, 0xA2, 0x00, 0x40, 0x0A, 0x01, 0x27, 0xFF, 0xFE,
        0x00, 0x40, 0x54, 0x78, 0x32, 0x43, 0x6F, 0x6F, 0x72, 0x64, 0x95,
    ];
    let mut res: heapless::Vec<u8, 256> = heapless::Vec::new();
    send_all(&mut |x| res.push(x).or(Err(nb::Error::Other(x))), &mut frame).unwrap();

    assert_eq!(res, test_data);
}

#[test]
fn read_test() {
    let mut i = [0x7E, 0x00, 0x07, 0x8B, 0x01, 0x7D, 0x84, 0x00, 0x00, 0x01, 0x71].iter();
    let test_data = Inbound::TransmitStatus {
        frame_id: 0x01,
        dest_addr: Address { high: 0x7D, low: 0x84 },
        txr_count: 0x00,
        status: TxStatus::Success,
        disco_status: DiscoStatus::AddressDiscovery,
    };

    read(&mut || i.next().map(|x| *x).ok_or(nb::Error::Other(())), &mut |frame| {
        assert_eq!(frame, test_data);
    })
    .unwrap();
}

#[test]
fn read_delivers_exactly_once_and_takes_the_whole_frame() {
    let (r, taken, delivered) = read_all(&STATUS_STREAM);
    assert!(r.is_ok());
    assert_eq!(taken, STATUS_STREAM.len());
    assert_eq!(delivered, 1);
}

#[test]
fn read_rejects_any_single_bit_flip_of_the_checksum() {
    for bit in 0..8 {
        let mut stream = STATUS_STREAM;
        stream[10] ^= 1 << bit;
        let (r, _, delivered) = read_all(&stream);
        assert!(matches!(r, Err(DeserializationError::BadChecksum(0x8E))));
        assert_eq!(delivered, 0);
    }
}

#[test]
fn read_rejects_a_flipped_payload_bit() {
    let mut stream = STATUS_STREAM;
    stream[5] ^= 0x10;
    let (r, _, delivered) = read_all(&stream);
    assert!(matches!(r, Err(DeserializationError::BadChecksum(0x7E))));
    assert_eq!(delivered, 0);
}

#[test]
fn read_retries_while_the_source_is_not_ready() {
    for stalls in [1usize, 3, 17] {
        let mut position = 0;
        let mut waited = 0;
        let mut polls = 0;
        let mut seen = None;
        let r: Result<(), DeserializationError<()>> = read(
            &mut || {
                polls += 1;
                if waited < stalls {
                    waited += 1;
                    return Err(nb::Error::WouldBlock);
                }
                waited = 0;
                let b = STATUS_STREAM[position];
                position += 1;
                Ok(b)
            },
            &mut |frame| {
                seen = Some(frame == Inbound::TransmitStatus {
                    frame_id: 0x01,
                    dest_addr: Address { high: 0x7D, low: 0x84 },
                    txr_count: 0x00,
                    status: TxStatus::Success,
                    disco_status: DiscoStatus::AddressDiscovery,
                });
            },
        );
        assert!(r.is_ok());
        assert_eq!(seen, Some(true));
        assert_eq!(position, STATUS_STREAM.len());
        assert_eq!(polls, STATUS_STREAM.len() * (stalls + 1));
    }
}

#[test]
fn read_fails_without_start_after_one_byte() {
    let (r, taken, delivered) = read_all(&[0x7D, 0x00, 0x07, 0x8B]);
    assert!(matches!(r, Err(DeserializationError::NoStart)));
    assert_eq!(taken, 1);
    assert_eq!(delivered, 0);
}

#[test]
fn read_passes_on_the_failure_of_the_source() {
    for cut in 0..STATUS_STREAM.len() {
        let mut position = 0;
        let r = read(
            &mut || {
                if position == cut {
                    return Err(nb::Error::Other(0xE0u8 + cut as u8));
                }
                let b = STATUS_STREAM[position];
                position += 1;
                Ok(b)
            },
            &mut |_frame| panic!("nothing to deliver"),
        );
        match r {
            Err(DeserializationError::Other(e)) => assert_eq!(e, 0xE0 + cut as u8),
            other => panic!("not the failure of the source: {:?}", other),
        }
    }
}

#[test]
fn read_reports_unknown_tag_as_unsupported() {
    let stream = framed(&[0x88, 0x01, 0x42, 0x44, 0x00]);
    let (r, taken, delivered) = read_all(&stream);
    assert!(matches!(r, Err(DeserializationError::Unsupported(0x88))));
    assert_eq!(taken, stream.len());
    assert_eq!(delivered, 0);
}

#[test]
fn read_reports_empty_payload_as_unsupported() {
    let (r, taken, delivered) = read_all(&[0x7E, 0x00, 0x00, 0xFF]);
    assert!(matches!(r, Err(DeserializationError::Unsupported(0))));
    assert_eq!(taken, 4);
    assert_eq!(delivered, 0);
}

#[test]
fn read_checks_the_checksum_of_an_empty_payload() {
    let (r, _, _) = read_all(&[0x7E, 0x00, 0x00, 0xFE]);
    assert!(matches!(r, Err(DeserializationError::BadChecksum(0))));
}

#[test]
fn read_reports_short_packet_and_unknown_status_as_unsupported() {
    let (r, _, _) = read_all(&framed(&[0x90, 1, 2, 3, 4, 5, 6, 7, 8, 9, 10]));
    assert!(matches!(r, Err(DeserializationError::Unsupported(0x90))));
    let (r, _, _) = read_all(&framed(&[0x8B, 0x01, 0x42, 0x43, 0x02, 0x99, 0x01]));
    assert!(matches!(r, Err(DeserializationError::Unsupported(0x99))));
    let (r, _, _) = read_all(&framed(&[0x8B, 0x01, 0x42]));
    assert!(matches!(r, Err(DeserializationError::Unsupported(0x8B))));
}

#[test]
fn read_delivers_a_received_packet() {
    let payload = [0x90, 0x00, 0x13, 0xA2, 0x00, 0x40, 0x52, 0x2B, 0xAA, 0x7D, 0x84, 0x01, 0x52, 0x78];
    let stream = framed(&payload);
    let mut position = 0;
    let mut seen = false;
    let r: Result<(), DeserializationError<()>> = read(
        &mut || {
            let b = stream[position];
            position += 1;
            Ok(b)
        },
        &mut |frame| {
            assert_eq!(
                frame,
                Inbound::RxPacket {
                    source_mac: MAC { high: 0x0013A200, low: 0x40522BAA },
                    source_addr: Address { high: 0x7D, low: 0x84 },
                    options: RxOptions::from_bits_truncate(RxOptions::PACKET_ACKNOWLEDGED),
                    data: &[0x52, 0x78],
                }
            );
            seen = true;
        },
    );
    assert!(r.is_ok());
    assert!(seen);
}

#[test]
fn read_takes_the_largest_body_that_fits() {
    let mut payload = vec![0x90u8; 255];
    payload[11] = 0x02;
    let stream = framed(&payload);
    assert_eq!(stream.len(), 259);
    let mut position = 0;
    let mut data_len = 0;
    let r: Result<(), DeserializationError<()>> = read(
        &mut || {
            let b = stream[position];
            position += 1;
            Ok(b)
        },
        &mut |frame| {
            if let Inbound::RxPacket { data, .. } = frame {
                data_len = data.len();
            }
        },
    );
    assert!(r.is_ok());
    assert_eq!(data_len, 243);
}

#[test]
fn read_overflows_on_a_body_longer_than_the_buffer() {
    let payload = vec![0x90u8; 256];
    let stream = framed(&payload);
    let (r, taken, delivered) = read_all(&stream);
    assert!(matches!(r, Err(DeserializationError::WouldOverflow)));
    assert_eq!(taken, 3 + 257);
    assert_eq!(delivered, 0);
}

#[test]
fn frame_length_is_big_endian() {
    assert_eq!(frame_length(0x00, 0x00), 0);
    assert_eq!(frame_length(0x00, 0x16), 22);
    assert_eq!(frame_length(0x01, 0x02), 258);
    assert_eq!(frame_length(0xFF, 0xFF), 65535);
}

#[test]
fn unpack_reads_body_with_fitting_checksum() {
    let r: Result<Inbound, DeserializationError<()>> = unpack(&STATUS_STREAM[3..]);
    assert_eq!(
        r.unwrap(),
        Inbound::TransmitStatus {
            frame_id: 0x01,
            dest_addr: Address { high: 0x7D, low: 0x84 },
            txr_count: 0x00,
            status: TxStatus::Success,
            disco_status: DiscoStatus::AddressDiscovery,
        }
    );
}

#[test]
fn unpack_reports_the_sum_of_the_payload() {
    let r: Result<Inbound, DeserializationError<()>> = unpack(&[0x8B, 0x01, 0x02, 0x00]);
    assert!(matches!(r, Err(DeserializationError::BadChecksum(0x8E))));
    let r: Result<Inbound, DeserializationError<()>> = unpack(&[0xF0, 0x20, 0x00]);
    assert!(matches!(r, Err(DeserializationError::BadChecksum(0x10))));
    let r: Result<Inbound, DeserializationError<()>> = unpack(&[0x00]);
    assert!(matches!(r, Err(DeserializationError::BadChecksum(0x00))));
}

#[test]
fn unpack_reports_unknown_tag() {
    let r: Result<Inbound, DeserializationError<()>> = unpack(&[0x42, 0xBD]);
    assert!(matches!(r, Err(DeserializationError::Unsupported(0x42))));
    let r: Result<Inbound, DeserializationError<()>> = unpack(&[0xFF]);
    assert!(matches!(r, Err(DeserializationError::Unsupported(0))));
}

#[test]
fn stage_gives_the_whole_frame() {
    let mut frame = request(&[0x54, 0x78, 0x32, 0x43, 0x6F, 0x6F, 0x72, 0x64]);
    let buffer = stage(&mut frame).unwrap();
    assert_eq!(buffer.as_slice(), &REQUEST_FRAME[..]);
}

#[test]
fn stage_twice_gives_the_same_bytes() {
    let mut frame = request(&[1, 2, 3, 4, 5]);
    let first = stage(&mut frame).unwrap();
    let second = stage(&mut frame).unwrap();
    assert_eq!(first, second);
    assert_eq!(frame, request(&[1, 2, 3, 4, 5]));
}

#[test]
fn staged_frame_has_eighteen_bytes_and_the_data() {
    for len in [0usize, 1, 8, 100, 237, 238] {
        let data = vec![0x5Au8; len];
        let mut frame = request(&data);
        let buffer = stage(&mut frame).unwrap();
        assert_eq!(buffer.len(), 14 + len + 4);
        assert_eq!(buffer[0], 0x7E);
        assert_eq!(buffer[1], 0x00);
        assert_eq!(buffer[2] as usize, 14 + len);
    }
}

#[test]
fn staged_frame_sums_to_ff_from_tag_through_checksum() {
    for len in [0usize, 1, 8, 100, 238] {
        let data: Vec<u8> = (0..len).map(|i| (i * 7 + 3) as u8).collect();
        let mut frame = request(&data);
        let buffer = stage(&mut frame).unwrap();
        let sum = buffer[3..].iter().fold(0u8, |acc, b| acc.wrapping_add(*b));
        assert_eq!(sum, 0xFF);
    }
}

#[test]
fn stage_refuses_a_frame_longer_than_the_buffer() {
    let data = [0u8; 239];
    assert!(stage(&mut request(&data[..238])).is_some());
    assert!(stage(&mut request(&data)).is_none());
    let long = vec![0u8; 70_000];
    assert!(stage(&mut request(&long)).is_none());
}

#[test]
fn serializer_yields_the_frame_byte_by_byte() {
    let mut frame = request(&[0x54, 0x78, 0x32, 0x43, 0x6F, 0x6F, 0x72, 0x64]);
    let mut fs = FrameSerializer::new(frame.to_iter());
    for b in REQUEST_FRAME {
        assert_eq!(fs.next(), Some(b));
    }
    assert_eq!(fs.next(), None);
    assert_eq!(fs.next(), None);
}

#[test]
fn serializer_writes_the_length_in_two_bytes() {
    let data = [0x00u8; 300];
    let mut frame = request(&data);
    let mut fs = FrameSerializer::new(frame.to_iter());
    assert_eq!(fs.next(), Some(0x7E));
    assert_eq!(fs.next(), Some(0x01));
    assert_eq!(fs.next(), Some(0x3A));
    let mut rest = Vec::new();
    while let Some(b) = fs.next() {
        rest.push(b);
    }
    assert_eq!(rest.len(), 314 + 1);
    let sum = rest.iter().fold(0u8, |acc, b| acc.wrapping_add(*b));
    assert_eq!(sum, 0xFF);
}

#[test]
fn write_refuses_overflow_before_touching_the_sink() {
    let data = [0u8; 239];
    let mut frame = request(&data);
    let mut calls = 0;
    let r: Result<(), SerializationError<()>> = send_all(
        &mut |_b| {
            calls += 1;
            Ok(())
        },
        &mut frame,
    );
    assert!(matches!(r, Err(SerializationError::WouldOverflow)));
    assert_eq!(calls, 0);
}

#[test]
fn write_sends_the_largest_frame_that_fits() {
    let data = [0x11u8; 238];
    let mut frame = request(&data);
    let mut sent = Vec::new();
    let r: Result<(), SerializationError<()>> = send_all(
        &mut |b| {
            sent.push(b);
            Ok(())
        },
        &mut frame,
    );
    assert!(r.is_ok());
    assert_eq!(sent.len(), 256);
    assert_eq!(&sent[..3], &[0x7E, 0x00, 0xFC]);
}

#[test]
fn write_retries_while_the_sink_is_not_ready() {
    let mut frame = request(&[0x54, 0x78, 0x32, 0x43, 0x6F, 0x6F, 0x72, 0x64]);
    let mut sent = Vec::new();
    let mut waited = 0;
    let r: Result<(), SerializationError<()>> = send_all(
        &mut |b| {
            if waited < 5 {
                waited += 1;
                return Err(nb::Error::WouldBlock);
            }
            waited = 0;
            sent.push(b);
            Ok(())
        },
        &mut frame,
    );
    assert!(r.is_ok());
    assert_eq!(sent, REQUEST_FRAME);
}

#[test]
fn write_stops_at_the_failure_of_the_sink() {
    let mut frame = request(&[0x54, 0x78, 0x32, 0x43, 0x6F, 0x6F, 0x72, 0x64]);
    let mut sent = Vec::new();
    let r = send_all(
        &mut |b| {
            if sent.len() == 7 {
                return Err(nb::Error::Other("line down"));
            }
            sent.push(b);
            Ok(())
        },
        &mut frame,
    );
    assert!(matches!(r, Err(SerializationError::Other("line down"))));
    assert_eq!(sent, &REQUEST_FRAME[..7]);
}

#[test]
fn write_leaves_the_frame_as_it_was() {
    let mut frame = request(&[9, 8, 7]);
    let r: Result<(), SerializationError<()>> = send_all(&mut |_b| Ok(()), &mut frame);
    assert!(r.is_ok());
    assert_eq!(frame, request(&[9, 8, 7]));
}

#[test]
fn written_request_passes_framing_and_is_refused_by_its_tag() {
    for len in [0usize, 8, 238] {
        let data = vec![0xC3u8; len];
        let mut frame = request(&data);
        let mut wire = Vec::new();
        let w: Result<(), SerializationError<()>> = send_all(
            &mut |b| {
                wire.push(b);
                Ok(())
            },
            &mut frame,
        );
        assert!(w.is_ok());
        let (r, taken, delivered) = read_all(&wire);
        assert!(matches!(r, Err(DeserializationError::Unsupported(0x10))));
        assert_eq!(taken, wire.len());
        assert_eq!(delivered, 0);
    }
}

#[test]
fn refused_byte_stands_for_overflow() {
    let e: SerializationError<()> = SerializationError::from(0x7Eu8);
    assert!(matches!(e, SerializationError::WouldOverflow));
    let e: DeserializationError<()> = 0x00u8.into();
    assert!(matches!(e, DeserializationError::WouldOverflow));
}

#[test]
fn after_poll_maps_each_answer() {
    assert_eq!(after_poll(Polled::<u8, ()>::Ready(0x42)), Step::Done(0x42));
    assert_eq!(after_poll(Polled::<u8, ()>::NotReady), Step::Again);
    assert_eq!(after_poll(Polled::<u8, u16>::Failed(0xBEEF)), Step::Stop(0xBEEF));
}

#[test]
fn sender_refuses_a_frame_that_does_not_fit() {
    let data = [0u8; 239];
    let r: Result<FrameSender, SerializationError<()>> = FrameSender::new(&mut request(&data));
    assert!(matches!(r, Err(SerializationError::WouldOverflow)));
    let r: Result<FrameSender, SerializationError<()>> =
        FrameSender::new(&mut request(&data[..238]));
    assert!(r.is_ok());
}

#[test]
fn sender_keeps_the_byte_while_the_sink_is_not_ready() {
    let mut frame = request(&[0x54, 0x78]);
    let mut sender = FrameSender::new::<()>(&mut frame).ok().unwrap();
    assert_eq!(sender.pending(), Some(0x7E));
    assert!(matches!(sender.on_answer(Polled::<(), ()>::NotReady), Step::Again));
    assert!(matches!(sender.on_answer(Polled::<(), ()>::NotReady), Step::Again));
    assert_eq!(sender.pending(), Some(0x7E));
    assert!(matches!(sender.on_answer(Polled::<(), ()>::Ready(())), Step::Again));
    assert_eq!(sender.pending(), Some(0x00));
    assert!(matches!(sender.on_answer(Polled::<(), ()>::NotReady), Step::Again));
    assert_eq!(sender.pending(), Some(0x00));
    assert!(matches!(sender.on_answer(Polled::<(), ()>::Ready(())), Step::Again));
    assert_eq!(sender.pending(), Some(0x10));
}

#[test]
fn sender_is_done_with_the_last_byte_and_stays_done() {
    let mut frame = request(&[]);
    let mut sender = FrameSender::new::<()>(&mut frame).ok().unwrap();
    let mut out = Vec::new();
    for i in 0..18 {
        out.push(sender.pending().unwrap());
        let step = sender.on_answer(Polled::<(), ()>::Ready(()));
        if i < 17 {
            assert!(matches!(step, Step::Again));
        } else {
            assert!(matches!(step, Step::Done(())));
        }
    }
    assert_eq!(out.len(), 18);
    assert_eq!(out[2], 14);
    assert_eq!(sender.pending(), None);
    assert!(matches!(sender.on_answer(Polled::<(), ()>::NotReady), Step::Done(())));
    assert!(matches!(sender.on_answer(Polled::<(), ()>::Failed(())), Step::Done(())));
    let mut calls = 0;
    let step: Step<(), SerializationError<()>> = sender.step(&mut |_b| {
        calls += 1;
        Ok(())
    });
    assert!(matches!(step, Step::Done(())));
    assert_eq!(calls, 0);
}

#[test]
fn sender_stops_with_the_error_of_the_sink() {
    let mut frame = request(&[1, 2, 3]);
    let mut sender = FrameSender::new::<u16>(&mut frame).ok().unwrap();
    assert!(matches!(sender.on_answer(Polled::<(), u16>::Ready(())), Step::Again));
    let step = sender.on_answer(Polled::Failed(0xDEADu16));
    assert!(matches!(step, Step::Stop(SerializationError::Other(0xDEAD))));
    assert_eq!(sender.pending(), Some(0x00));
}

#[test]
fn sender_step_asks_the_sink_once_with_the_pending_byte() {
    let mut frame = request(&[0x54]);
    let mut sender = FrameSender::new::<()>(&mut frame).ok().unwrap();
    let mut seen = Vec::new();
    let step: Step<(), SerializationError<()>> = sender.step(&mut |b| {
        seen.push(b);
        Err(nb::Error::WouldBlock)
    });
    assert!(matches!(step, Step::Again));
    let step: Step<(), SerializationError<()>> = sender.step(&mut |b| {
        seen.push(b);
        Ok(())
    });
    assert!(matches!(step, Step::Again));
    let step: Step<(), SerializationError<()>> = sender.step(&mut |b| {
        seen.push(b);
        Err(nb::Error::Other(()))
    });
    assert!(matches!(step, Step::Stop(SerializationError::Other(()))));
    assert_eq!(seen, [0x7E, 0x7E, 0x00]);
    assert_eq!(sender.pending(), Some(0x00));
}

#[test]
fn receiver_takes_a_frame_byte_by_byte() {
    let mut receiver = FrameReceiver::new();
    let mut events = 0;
    for (i, b) in STATUS_STREAM.iter().enumerate() {
        let step: Step<(), DeserializationError<()>> = receiver.take(*b, &mut |frame| {
            assert_eq!(
                frame,
                Inbound::TransmitStatus {
                    frame_id: 0x01,
                    dest_addr: Address { high: 0x7D, low: 0x84 },
                    txr_count: 0x00,
                    status: TxStatus::Success,
                    disco_status: DiscoStatus::AddressDiscovery,
                }
            );
            events += 1;
        });
        if i + 1 < STATUS_STREAM.len() {
            assert!(matches!(step, Step::Again));
        } else {
            assert!(matches!(step, Step::Done(())));
        }
    }
    assert_eq!(events, 1);
}

#[test]
fn receiver_reads_one_frame_after_another() {
    let mut receiver = FrameReceiver::new();
    let mut events = 0;
    for _ in 0..3 {
        for b in STATUS_STREAM {
            let _: Step<(), DeserializationError<()>> = receiver.take(b, &mut |_frame| {
                events += 1;
            });
        }
    }
    assert_eq!(events, 3);
}

#[test]
fn receiver_waits_for_the_start_again_after_a_wrong_first_byte() {
    let mut receiver = FrameReceiver::new();
    let mut events = 0;
    let step: Step<(), DeserializationError<()>> = receiver.take(0x00, &mut |_frame| {
        events += 1;
    });
    assert!(matches!(step, Step::Stop(DeserializationError::NoStart)));
    let step: Step<(), DeserializationError<()>> = receiver.take(0x7D, &mut |_frame| {
        events += 1;
    });
    assert!(matches!(step, Step::Stop(DeserializationError::NoStart)));
    let mut last = Step::Again;
    for b in STATUS_STREAM {
        last = receiver.take::<(), _>(b, &mut |_frame| {
            events += 1;
        });
    }
    assert!(matches!(last, Step::Done(())));
    assert_eq!(events, 1);
}

#[test]
fn receiver_is_unmoved_by_answers_that_are_not_ready() {
    let mut receiver = FrameReceiver::new();
    let mut events = 0;
    let mut last: Step<(), DeserializationError<()>> = Step::Again;
    for b in STATUS_STREAM {
        for _ in 0..4 {
            let step: Step<(), DeserializationError<()>> =
                receiver.on_answer(Polled::NotReady, &mut |_frame| {
                    events += 1;
                });
            assert!(matches!(step, Step::Again));
        }
        last = receiver.on_answer(Polled::Ready(b), &mut |_frame| {
            events += 1;
        });
    }
    assert!(matches!(last, Step::Done(())));
    assert_eq!(events, 1);
}

#[test]
fn receiver_stops_with_the_error_of_the_source_and_starts_afresh() {
    let mut receiver = FrameReceiver::new();
    let mut events = 0;
    for b in &STATUS_STREAM[..6] {
        let step: Step<(), DeserializationError<u8>> =
            receiver.on_answer(Polled::Ready(*b), &mut |_frame| {
                events += 1;
            });
        assert!(matches!(step, Step::Again));
    }
    let step = receiver.on_answer(Polled::Failed(0x5Au8), &mut |_frame| {
        events += 1;
    });
    assert!(matches!(step, Step::Stop(DeserializationError::Other(0x5A))));
    let mut last = Step::Again;
    for b in STATUS_STREAM {
        last = receiver.on_answer::<u8, _>(Polled::Ready(b), &mut |_frame| {
            events += 1;
        });
    }
    assert!(matches!(last, Step::Done(())));
    assert_eq!(events, 1);
}

#[test]
fn receiver_overflows_with_the_257th_byte_of_the_body() {
    let mut receiver = FrameReceiver::new();
    for b in [0x7E, 0x01, 0x00] {
        let step: Step<(), DeserializationError<()>> =
            receiver.take(b, &mut |_frame| panic!("nothing to deliver"));
        assert!(matches!(step, Step::Again));
    }
    for _ in 0..256 {
        let step: Step<(), DeserializationError<()>> =
            receiver.take(0x90, &mut |_frame| panic!("nothing to deliver"));
        assert!(matches!(step, Step::Again));
    }
    let step: Step<(), DeserializationError<()>> =
        receiver.take(0x90, &mut |_frame| panic!("nothing to deliver"));
    assert!(matches!(step, Step::Stop(DeserializationError::WouldOverflow)));
}

#[test]
fn receiver_step_asks_the_source_once() {
    let mut receiver = FrameReceiver::new();
    let mut asked = 0;
    let step: Step<(), DeserializationError<()>> = receiver.step(
        &mut || {
            asked += 1;
            Err(nb::Error::WouldBlock)
        },
        &mut |_frame| panic!("nothing to deliver"),
    );
    assert!(matches!(step, Step::Again));
    let step: Step<(), DeserializationError<()>> = receiver.step(
        &mut || {
            asked += 1;
            Ok(0x7E)
        },
        &mut |_frame| panic!("nothing to deliver"),
    );
    assert!(matches!(step, Step::Again));
    let step: Step<(), DeserializationError<()>> = receiver.step(
        &mut || {
            asked += 1;
            Err(nb::Error::Other(()))
        },
        &mut |_frame| panic!("nothing to deliver"),
    );
    assert!(matches!(step, Step::Stop(DeserializationError::Other(()))));
    assert_eq!(asked, 3);
}
