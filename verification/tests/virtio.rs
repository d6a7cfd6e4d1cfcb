use vhost_user_scsi::block_device::BlockDevice;
use vhost_user_scsi::chain::{fits, Cursor, Descriptor};
use vhost_user_scsi::scsi::{Answer, CmdError, CmdOutput, EmulatedTarget, Medium, MediumQuery};
use vhost_user_scsi::sense::invalid_command_operation_code;
use vhost_user_scsi::sink::{write_all, DataIn, SilentlyTruncate, WriteError};
use vhost_user_scsi::virtio::{
    handle_request, le64, parse_target, request_ready, respond, task_attr, try_handle_request,
    DescriptorChainReader, DescriptorChainWriter, Handled, ReadOp, Response, VirtioScsiError,
    VirtioScsiLun, VirtioScsiResponse, WriteOp,
};
use vhost_user_scsi::scsi::TaskAttr;

fn targets(luns: usize) -> Vec<EmulatedTarget<BlockDevice>> {
    let mut target = EmulatedTarget::new();
    for _ in 0..luns {
        target.add_lun(BlockDevice::new());
    }
    vec![target]
}

/// A request header for a LUN of target 0, with its CDB.
fn request(lun: [u8; 8], cdb: &[u8]) -> Vec<u8> {
    let mut request = Vec::new();
    request.extend_from_slice(&lun);
    request.extend_from_slice(&0x0102_0304_0506_0708u64.to_le_bytes());
    request.extend_from_slice(&[0, 0, 0]);
    request.extend_from_slice(cdb);
    request.resize(51, 0);
    request
}

/// Guest memory of `len` bytes from address `base` on, after the stores.
fn memory(base: u64, len: usize, stores: &[WriteOp]) -> Vec<u8> {
    let mut mem = vec![0xeeu8; len];
    for op in stores {
        let at = (op.addr - base) as usize;
        mem[at..at + op.data.len()].copy_from_slice(&op.data);
    }
    mem
}

#[test]
fn lun_addresses() {
    assert_eq!(
        VirtioScsiLun::parse([0xc1, 0x01, 0, 0, 0, 0, 0, 0]),
        Some(VirtioScsiLun::ReportLuns)
    );
    assert_eq!(
        VirtioScsiLun::parse([0x01, 0x00, 0x40, 0x00, 0, 0, 0, 0]),
        Some(VirtioScsiLun::TargetLun(0, 0))
    );
    assert_eq!(
        VirtioScsiLun::parse([0x01, 0x07, 0x41, 0x02, 0, 0, 0, 0]),
        Some(VirtioScsiLun::TargetLun(7, 258))
    );
    assert_eq!(
        VirtioScsiLun::parse([0x01, 0xff, 0x7f, 0xff, 9, 9, 9, 9]),
        Some(VirtioScsiLun::TargetLun(255, 0x3fff))
    );
    // the two bits on top of the third byte must be 01
    assert_eq!(VirtioScsiLun::parse([0x01, 0, 0x00, 0, 0, 0, 0, 0]), None);
    assert_eq!(VirtioScsiLun::parse([0x01, 0, 0x80, 0, 0, 0, 0, 0]), None);
    assert_eq!(VirtioScsiLun::parse([0x01, 0, 0xc0, 0, 0, 0, 0, 0]), None);
    // neither form
    assert_eq!(VirtioScsiLun::parse([0x00, 0, 0x40, 0, 0, 0, 0, 0]), None);
    assert_eq!(VirtioScsiLun::parse([0xc1, 0x01, 0, 0, 0, 0, 0, 1]), None);
    assert_eq!(VirtioScsiLun::parse([0xc1, 0x00, 0x40, 0, 0, 0, 0, 0]), None);
}

#[test]
fn target_lookup() {
    let one = targets(1);
    assert_eq!(parse_target(&one, VirtioScsiLun::TargetLun(0, 5)), Some((0, 5)));
    assert_eq!(parse_target(&one, VirtioScsiLun::TargetLun(1, 0)), None);
    assert_eq!(parse_target(&one, VirtioScsiLun::ReportLuns), None);
    let none: Vec<EmulatedTarget<BlockDevice>> = Vec::new();
    assert_eq!(parse_target(&none, VirtioScsiLun::TargetLun(0, 0)), None);
}

#[test]
fn task_attributes() {
    assert_eq!(task_attr(0), Some(TaskAttr::Simple));
    assert_eq!(task_attr(1), Some(TaskAttr::Ordered));
    assert_eq!(task_attr(2), Some(TaskAttr::HeadOfQueue));
    assert_eq!(task_attr(3), Some(TaskAttr::Aca));
    assert_eq!(task_attr(4), None);
    assert_eq!(task_attr(255), None);
    assert_eq!(le64(&[9, 8, 7, 6, 5, 4, 3, 2, 1], 1), 0x0102_0304_0506_0708);
    assert_eq!(le64(&[0xff; 8], 0), u64::MAX);
}

#[test]
fn response_codes() {
    let codes = [
        (VirtioScsiResponse::Success, 0),
        (VirtioScsiResponse::Overrun, 1),
        (VirtioScsiResponse::Aborted, 2),
        (VirtioScsiResponse::BadTarget, 3),
        (VirtioScsiResponse::Reset, 4),
        (VirtioScsiResponse::TransportFailure, 5),
        (VirtioScsiResponse::TargetFailure, 6),
        (VirtioScsiResponse::NexusFailure, 7),
        (VirtioScsiResponse::Busy, 8),
        (VirtioScsiResponse::Failure, 9),
    ];
    for (response, code) in codes {
        assert_eq!(response.code(), code);
    }
}

#[test]
fn response_on_the_wire() {
    let response = Response {
        response: VirtioScsiResponse::Success,
        status: 2,
        status_qualifier: 0x1234,
        sense: invalid_command_operation_code().to_fixed_sense(),
        residual: 0x0a0b_0c0d,
    };
    let mut expected = vec![18, 0, 0, 0, 0x0d, 0x0c, 0x0b, 0x0a, 0x34, 0x12, 2, 0];
    expected.extend_from_slice(&[0x70, 0, 5, 0, 0, 0, 0, 10, 0, 0, 0, 0, 0x20, 0, 0, 0, 0, 0]);
    assert_eq!(response.to_bytes(), expected);
    let mut out: Vec<u8> = vec![0xaa];
    assert_eq!(response.write(&mut out), Ok(()));
    assert_eq!(&out[1..], &expected[..]);
    // the sense length in the header is that of the sense data
    assert_eq!(u32::from_le_bytes([out[1], out[2], out[3], out[4]]) as usize, response.sense.len());

    let bad = Response {
        response: VirtioScsiResponse::BadTarget,
        status: 0,
        status_qualifier: 0,
        sense: Vec::new(),
        residual: 500,
    };
    assert_eq!(bad.to_bytes(), vec![0, 0, 0, 0, 0xf4, 1, 0, 0, 0, 0, 0, 3]);

    // a writer without room for the response
    let mut writer = DescriptorChainWriter::new(vec![Descriptor { addr: 64, len: 5 }]);
    assert_eq!(bad.write(&mut writer), Err(WriteError::WriteZero));
    assert_eq!(writer.max_written(), 5);
    assert_eq!(writer.into_stores(), vec![WriteOp { addr: 64, data: vec![0, 0, 0, 0, 0xf4] }]);
}

#[test]
fn responses_to_command_results() {
    let ok = respond(Ok(CmdOutput::ok()), 77);
    assert_eq!(
        ok,
        Response {
            response: VirtioScsiResponse::Success,
            status: 0,
            status_qualifier: 0,
            sense: vec![],
            residual: 77
        }
    );
    let failed = respond(Ok(CmdOutput::check_condition(invalid_command_operation_code())), 3);
    assert_eq!(failed.response, VirtioScsiResponse::Success);
    assert_eq!(failed.status, 2);
    assert_eq!(failed.sense.len(), 18);
    assert_eq!(failed.residual, 3);
    let overrun = respond(Err(CmdError::DataIn(WriteError::WriteZero)), 77);
    assert_eq!(
        overrun,
        Response {
            response: VirtioScsiResponse::Overrun,
            status: 0,
            status_qualifier: 0,
            sense: vec![],
            residual: 0
        }
    );
}

#[test]
fn chains_that_can_be_walked() {
    assert!(fits(&vec![]));
    let chain = vec![
        Descriptor { addr: 0x1000, len: 16 },
        Descriptor { addr: 0, len: 0 },
        Descriptor { addr: u64::MAX - 4, len: 4 },
    ];
    assert!(fits(&chain));
    assert!(!fits(&vec![Descriptor { addr: u64::MAX - 4, len: 5 }]));
    assert!(fits(&vec![Descriptor { addr: 0, len: u32::MAX }]));
    assert!(!fits(&vec![Descriptor { addr: 0, len: u32::MAX }, Descriptor { addr: 0, len: 1 }]));
}

#[test]
fn cursor_steps_stay_in_one_descriptor() {
    let mut cursor = Cursor::new(vec![
        Descriptor { addr: 0, len: 0 },
        Descriptor { addr: 100, len: 4 },
        Descriptor { addr: 0, len: 0 },
        Descriptor { addr: 200, len: 6 },
    ]);
    assert_eq!(cursor.position_now(), 0);
    assert_eq!(cursor.step(3), (100, 3));
    assert_eq!(cursor.step(0).1, 0);
    assert_eq!(cursor.step(3), (103, 1));
    assert_eq!(cursor.position_now(), 4);
    let mut second = cursor.duplicate();
    assert_eq!(cursor.step(100), (200, 6));
    assert_eq!(cursor.step(100).1, 0);
    assert_eq!(cursor.position_now(), 10);
    second.skip(2);
    assert_eq!(second.position_now(), 6);
    assert_eq!(second.step(1), (202, 1));
    assert_eq!(second.drain(), 3);
    assert_eq!(second.drain(), 0);
    second.skip(5);
    assert_eq!(second.position_now(), 10);
}

#[test]
fn writer_spreads_bytes_over_descriptors() {
    let mut writer = DescriptorChainWriter::new(vec![
        Descriptor { addr: 0x100, len: 3 },
        Descriptor { addr: 0, len: 0 },
        Descriptor { addr: 0x200, len: 5 },
    ]);
    // one write never spans two descriptors
    assert_eq!(writer.write(&[1, 2, 3, 4, 5]), 3);
    assert_eq!(writer.max_written(), 3);
    assert_eq!(write_all(&mut writer, &[4, 5, 6]), Ok(()));
    assert_eq!(writer.max_written(), 6);
    assert_eq!(write_all(&mut writer, &[7, 8, 9]), Err(WriteError::WriteZero));
    assert_eq!(writer.max_written(), 8);
    assert_eq!(writer.write(&[10]), 0);
    assert_eq!(writer.residual(), 0);
    assert_eq!(
        writer.into_stores(),
        vec![
            WriteOp { addr: 0x100, data: vec![1, 2, 3] },
            WriteOp { addr: 0x200, data: vec![4, 5, 6] },
            WriteOp { addr: 0x203, data: vec![7, 8] },
        ]
    );
}

#[test]
fn writer_skip_residual_and_high_water() {
    let chain = vec![Descriptor { addr: 0x100, len: 8 }, Descriptor { addr: 0x200, len: 8 }];
    let mut writer = DescriptorChainWriter::new(chain.clone());
    assert_eq!(writer.max_written(), 0);
    let mut body = writer.duplicate();
    body.skip(6);
    assert_eq!(body.max_written(), 6);
    assert_eq!(write_all(&mut body, &[1, 2, 3, 4]), Ok(()));
    assert_eq!(body.max_written(), 10);
    assert_eq!(write_all(&mut writer, &[9, 9]), Ok(()));
    assert_eq!(writer.max_written(), 2);
    writer.absorb(&body);
    assert_eq!(writer.max_written(), 10);
    assert_eq!(body.residual(), 6);
    assert_eq!(body.residual(), 0);
    assert_eq!(body.max_written(), 10);
    assert_eq!(writer.residual(), 14);
    assert_eq!(
        body.into_stores(),
        vec![
            WriteOp { addr: 0x106, data: vec![1, 2] },
            WriteOp { addr: 0x200, data: vec![3, 4] }
        ]
    );
    assert_eq!(writer.into_stores(), vec![WriteOp { addr: 0x100, data: vec![9, 9] }]);

    // skipping past the end counts all bytes and leaves no room
    let mut past = DescriptorChainWriter::new(chain);
    past.skip(100);
    assert_eq!(past.max_written(), 100);
    assert_eq!(past.residual(), 0);
    assert_eq!(write_all(&mut past, &[1]), Err(WriteError::WriteZero));
    assert_eq!(write_all(&mut past, &[]), Ok(()));
    assert!(past.into_stores().is_empty());
}

#[test]
fn truncating_sink() {
    let mut out: Vec<u8> = Vec::new();
    let mut limit = SilentlyTruncate::new(Some(5));
    assert_eq!(limit.remaining, 5);
    assert_eq!(limit.write(&mut out, &[1, 2, 3]), 3);
    assert_eq!(limit.remaining, 2);
    assert_eq!(limit.write(&mut out, &[4, 5, 6]), 2);
    assert_eq!(limit.remaining, 0);
    // once the limit is used up every write claims success
    assert_eq!(limit.write(&mut out, &[7, 8, 9, 10]), 4);
    assert_eq!(limit.write_all(&mut out, &[11; 100]), Ok(()));
    assert_eq!(out, vec![1, 2, 3, 4, 5]);

    let mut out: Vec<u8> = vec![0xaa];
    let mut limit = SilentlyTruncate::new(Some(3));
    assert_eq!(limit.write_all(&mut out, &[1, 2, 3, 4, 5]), Ok(()));
    assert_eq!(out, vec![0xaa, 1, 2, 3]);

    let mut out: Vec<u8> = Vec::new();
    let mut unlimited = SilentlyTruncate::new(None);
    assert_eq!(unlimited.remaining, usize::MAX);
    assert_eq!(unlimited.write_all(&mut out, &[1, 2, 3]), Ok(()));
    assert_eq!(out, vec![1, 2, 3]);

    // the limit is above the room of the sink
    let mut writer = DescriptorChainWriter::new(vec![Descriptor { addr: 0, len: 2 }]);
    let mut limit = SilentlyTruncate::new(Some(4));
    assert_eq!(limit.write_all(&mut writer, &[1, 2, 3, 4, 5]), Err(WriteError::WriteZero));
    assert_eq!(writer.into_stores(), vec![WriteOp { addr: 0, data: vec![1, 2] }]);
    // the limit is below the room of the sink
    let mut writer = DescriptorChainWriter::new(vec![Descriptor { addr: 0, len: 4 }]);
    let mut limit = SilentlyTruncate::new(Some(2));
    assert_eq!(limit.write_all(&mut writer, &[1, 2, 3, 4, 5]), Ok(()));
    assert_eq!(writer.residual(), 2);
}

#[test]
fn reader_plans_its_loads() {
    let chain = vec![
        Descriptor { addr: 0x1000, len: 19 },
        Descriptor { addr: 0, len: 0 },
        Descriptor { addr: 0x2000, len: 40 },
    ];
    let mut reader = DescriptorChainReader::new(chain.clone());
    assert_eq!(
        reader.read_exact(51),
        Ok(vec![ReadOp { addr: 0x1000, len: 19 }, ReadOp { addr: 0x2000, len: 32 }])
    );
    assert_eq!(reader.read(100), ReadOp { addr: 0x2020, len: 8 });
    assert_eq!(reader.read(100).len, 0);
    assert_eq!(reader.read_exact(0), Ok(vec![]));
    assert_eq!(reader.read_exact(1), Err(VirtioScsiError::UnexpectedEof));

    let mut reader = DescriptorChainReader::new(chain);
    assert_eq!(reader.read(4), ReadOp { addr: 0x1000, len: 4 });
    assert_eq!(reader.read(0).len, 0);
    assert_eq!(reader.read(20), ReadOp { addr: 0x1004, len: 15 });
    assert_eq!(reader.read_exact(41), Err(VirtioScsiError::UnexpectedEof));
    assert_eq!(reader.read(1).len, 0);
}

#[test]
fn request_with_data() {
    let targets = targets(5);
    let writable = vec![
        Descriptor { addr: 0x1000, len: 108 },
        Descriptor { addr: 0x2000, len: 256 },
    ];
    let request = request(
        [1, 0, 0x40, 0, 0, 0, 0, 0],
        &[0xa0, 0, 0, 0, 0, 0, 0, 0, 1, 0, 0, 0],
    );
    let medium = Medium::new();
    assert!(request_ready(&targets, &request, &writable, &medium));
    match handle_request(&targets, &request, writable, &medium) {
        Handled::Respond { data, response, used } => {
            assert_eq!(used, 108 + 48);
            let header = memory(0x1000, 108, &response);
            // sense length 0, residual 256 - 48, status GOOD, response OK
            assert_eq!(&header[..12], &[0, 0, 0, 0, 208, 0, 0, 0, 0, 0, 0, 0]);
            assert!(header[12..].iter().all(|b| *b == 0xee));
            assert_eq!(data.len(), 1);
            assert_eq!(data[0].addr, 0x2000);
            assert_eq!(data[0].data.len(), 48);
            assert_eq!(&data[0].data[..8], &[0, 0, 0, 40, 0, 0, 0, 0]);
            assert_eq!(&data[0].data[40..], &[0, 4, 0, 0, 0, 0, 0, 0]);
        }
        other => panic!("{:?}", other),
    }
}

#[test]
fn request_that_fails_at_the_scsi_level() {
    let targets = targets(1);
    let writable = vec![Descriptor { addr: 0x1000, len: 50 }, Descriptor { addr: 0x3000, len: 100 }];
    let request = request([1, 0, 0x40, 0, 0, 0, 0, 0], &[0xff, 0, 0, 0, 0, 0]);
    match try_handle_request(&targets, &request, writable, &Medium::new()) {
        Some(Handled::Respond { data, response, used }) => {
            // only the room reserved for the response counts as used
            assert_eq!(used, 108);
            assert!(data.is_empty());
            let stores = response;
            let mut bytes = Vec::new();
            for op in &stores {
                bytes.extend_from_slice(&op.data);
            }
            // sense length 18, residual 42, status CHECK CONDITION, response OK
            let mut expected = vec![18, 0, 0, 0, 42, 0, 0, 0, 0, 0, 2, 0];
            expected.extend_from_slice(&invalid_command_operation_code().to_fixed_sense());
            assert_eq!(bytes, expected);
            assert_eq!(stores[0].addr, 0x1000);
        }
        other => panic!("{:?}", other),
    }
}

#[test]
fn request_for_a_missing_lun_is_answered_by_the_target() {
    let targets = targets(1);
    let writable = vec![Descriptor { addr: 0x1000, len: 200 }];
    // LUN 3 of target 0, TEST UNIT READY
    let request = request([1, 0, 0x40, 3, 0, 0, 0, 0], &[0, 0, 0, 0, 0, 0]);
    match handle_request(&targets, &request, writable, &Medium::new()) {
        Handled::Respond { data, response, used } => {
            assert_eq!(used, 108);
            assert!(data.is_empty());
            let mem = memory(0x1000, 200, &response);
            // response OK, CHECK CONDITION, logical unit not supported
            assert_eq!(&mem[..12], &[18, 0, 0, 0, 92, 0, 0, 0, 0, 0, 2, 0]);
            assert_eq!(&mem[12..30], &[0x70, 0, 5, 0, 0, 0, 0, 10, 0, 0, 0, 0, 0x25, 0, 0, 0, 0, 0]);
        }
        other => panic!("{:?}", other),
    }
}

#[test]
fn request_without_a_target_is_a_bad_target() {
    let targets = targets(1);
    for lun in [
        [0xc1, 1, 0, 0, 0, 0, 0, 0], // the well-known logical unit
        [1, 1, 0x40, 0, 0, 0, 0, 0], // target 1
        [1, 0, 0x00, 0, 0, 0, 0, 0], // no LUN at all
        [0, 0, 0, 0, 0, 0, 0, 0],
    ] {
        let writable = vec![Descriptor { addr: 0x1000, len: 108 }, Descriptor { addr: 0x5000, len: 64 }];
        // the command is not looked at
        let request = request(lun, &[0x12, 0, 0, 0, 255, 0b100]);
        match try_handle_request(&targets, &request, writable, &Medium::new()) {
            Some(Handled::Respond { data, response, used }) => {
                assert_eq!(used, 108);
                assert!(data.is_empty());
                assert_eq!(
                    response,
                    vec![WriteOp { addr: 0x1000, data: vec![0, 0, 0, 0, 64, 0, 0, 0, 0, 0, 0, 3] }]
                );
            }
            other => panic!("{:?}", other),
        }
    }
}

#[test]
fn request_whose_data_overruns_the_buffer() {
    let targets = targets(1);
    let writable = vec![Descriptor { addr: 0x1000, len: 108 }, Descriptor { addr: 0x2000, len: 16 }];
    // INQUIRY with room for 255 bytes claimed and 16 given
    let request = request([1, 0, 0x40, 0, 0, 0, 0, 0], &[0x12, 0, 0, 0, 255, 0]);
    match handle_request(&targets, &request, writable, &Medium::new()) {
        Handled::Respond { data, response, used } => {
            assert_eq!(used, 124);
            assert_eq!(
                data,
                vec![WriteOp {
                    addr: 0x2000,
                    data: vec![0, 0, 7, 0x32, 91, 0, 0, 2, b'r', b'u', b's', b't', b'-', b'v', b'm', b'm']
                }]
            );
            assert_eq!(
                response,
                vec![WriteOp { addr: 0x1000, data: vec![0, 0, 0, 0, 0, 0, 0, 0, 0, 0, 0, 1] }]
            );
        }
        other => panic!("{:?}", other),
    }
    // with an allocation length of 16 the same buffer suffices
    let writable = vec![Descriptor { addr: 0x1000, len: 108 }, Descriptor { addr: 0x2000, len: 16 }];
    let request = self::request([1, 0, 0x40, 0, 0, 0, 0, 0], &[0x12, 0, 0, 0, 16, 0]);
    match handle_request(&targets, &request, writable, &Medium::new()) {
        Handled::Respond { data, response, used } => {
            assert_eq!(used, 124);
            assert_eq!(data[0].data.len(), 16);
            assert_eq!(response[0].data, vec![0, 0, 0, 0, 0, 0, 0, 0, 0, 0, 0, 0]);
        }
        other => panic!("{:?}", other),
    }
}

#[test]
fn request_that_reads_asks_the_backing_store_first() {
    let targets = targets(1);
    let writable = || vec![Descriptor { addr: 0x1000, len: 108 }, Descriptor { addr: 0x8000, len: 512 }];
    let request = request([1, 0, 0x40, 0, 0, 0, 0, 0], &[0x28, 8, 0, 0, 0, 1, 0, 0, 1, 0]);
    let mut medium = Medium::new();
    match handle_request(&targets, &request, writable(), &medium) {
        Handled::Ask(MediumQuery::Sync) => medium.synced = true,
        other => panic!("{:?}", other),
    }
    match handle_request(&targets, &request, writable(), &medium) {
        Handled::Ask(MediumQuery::Length) => medium.len = Answer::Known(1024),
        other => panic!("{:?}", other),
    }
    match handle_request(&targets, &request, writable(), &medium) {
        Handled::Ask(MediumQuery::Read { offset: 512, len: 512 }) => {
            medium.data = Answer::Known(vec![0x5a; 512])
        }
        other => panic!("{:?}", other),
    }
    match handle_request(&targets, &request, writable(), &medium) {
        Handled::Respond { data, response, used } => {
            assert_eq!(used, 620);
            assert_eq!(data, vec![WriteOp { addr: 0x8000, data: vec![0x5a; 512] }]);
            assert_eq!(response, vec![WriteOp { addr: 0x1000, data: vec![0; 12] }]);
        }
        other => panic!("{:?}", other),
    }
}

#[test]
fn requests_that_cannot_be_handled() {
    let targets = targets(1);
    let medium = Medium::new();
    let writable = vec![Descriptor { addr: 0x1000, len: 108 }];
    let good = request([1, 0, 0x40, 0, 0, 0, 0, 0], &[0, 0, 0, 0, 0, 0]);
    assert!(request_ready(&targets, &good, &writable, &medium));
    // a request of the wrong size
    assert!(!request_ready(&targets, &good[..50], &writable, &medium));
    let mut long = good.clone();
    long.push(0);
    assert!(!request_ready(&targets, &long, &writable, &medium));
    // a task attribute that does not exist
    let mut attr = good.clone();
    attr[16] = 4;
    assert!(!request_ready(&targets, &attr, &writable, &medium));
    attr[16] = 3;
    assert!(request_ready(&targets, &attr, &writable, &medium));
    // too little room for the response
    assert!(request_ready(&targets, &good, &vec![], &medium));
    assert!(try_handle_request(&targets, &good, vec![], &medium).is_none());
    let short = vec![Descriptor { addr: 0x1000, len: 11 }];
    assert!(try_handle_request(&targets, &good, short, &medium).is_none());
    // a chain that runs past the end of the address space
    assert!(!request_ready(
        &targets,
        &good,
        &vec![Descriptor { addr: u64::MAX - 10, len: 108 }],
        &medium
    ));
    // a command that the logical unit does not take
    let naca = request([1, 0, 0x40, 0, 0, 0, 0, 0], &[0, 0, 0, 0, 0, 4]);
    assert!(!request_ready(&targets, &naca, &writable, &medium));
    assert!(try_handle_request(&targets, &naca, writable.clone(), &medium).is_none());
    // the same command for a LUN that is not there, and for no target
    let naca = request([1, 0, 0x40, 1, 0, 0, 0, 0], &[0, 0, 0, 0, 0, 4]);
    assert!(request_ready(&targets, &naca, &writable, &medium));
    let naca = request([1, 9, 0x40, 0, 0, 0, 0, 0], &[0, 0, 0, 0, 0, 4]);
    assert!(request_ready(&targets, &naca, &writable, &medium));
}

#[test]
fn request_with_room_for_the_response_only() {
    let targets = targets(1);
    let medium = Medium::new();
    // TEST UNIT READY needs the twelve bytes of the header
    let good = request([1, 0, 0x40, 0, 0, 0, 0, 0], &[0, 0, 0, 0, 0, 0]);
    match try_handle_request(&targets, &good, vec![Descriptor { addr: 0x1000, len: 12 }], &medium) {
        Some(Handled::Respond { data, response, used }) => {
            assert!(data.is_empty());
            assert_eq!(response, vec![WriteOp { addr: 0x1000, data: vec![0; 12] }]);
            // the room reserved for the response counts as used all the same
            assert_eq!(used, 108);
        }
        other => panic!("{:?}", other),
    }
    // a command that fails needs room for its sense data too
    let unknown = request([1, 0, 0x40, 0, 0, 0, 0, 0], &[0xff, 0, 0, 0, 0, 0]);
    let writable = vec![Descriptor { addr: 0x1000, len: 29 }];
    assert!(try_handle_request(&targets, &unknown, writable, &medium).is_none());
    let writable = vec![Descriptor { addr: 0x1000, len: 30 }];
    match try_handle_request(&targets, &unknown, writable, &medium) {
        Some(Handled::Respond { data, response, used }) => {
            assert!(data.is_empty());
            assert_eq!(used, 108);
            assert_eq!(response.len(), 1);
            assert_eq!(&response[0].data[..12], &[18, 0, 0, 0, 0, 0, 0, 0, 0, 0, 2, 0]);
            assert_eq!(response[0].data.len(), 30);
        }
        other => panic!("{:?}", other),
    }
    // a command with data overruns a buffer that ends in the reserved room
    let inquiry = request([1, 0, 0x40, 0, 0, 0, 0, 0], &[0x12, 0, 0, 0, 255, 0]);
    let writable = vec![Descriptor { addr: 0x1000, len: 100 }];
    match try_handle_request(&targets, &inquiry, writable, &medium) {
        Some(Handled::Respond { data, response, used }) => {
            assert!(data.is_empty());
            assert_eq!(used, 108);
            assert_eq!(
                response,
                vec![WriteOp { addr: 0x1000, data: vec![0, 0, 0, 0, 0, 0, 0, 0, 0, 0, 0, 1] }]
            );
        }
        other => panic!("{:?}", other),
    }
}

#[test]
fn writer_skips_between_writes() {
    let mut writer = DescriptorChainWriter::new(vec![
        Descriptor { addr: 0x100, len: 4 },
        Descriptor { addr: 0x200, len: 4 },
        Descriptor { addr: 0x300, len: 4 },
    ]);
    assert_eq!(write_all(&mut writer, &[1, 2]), Ok(()));
    writer.skip(3);
    assert_eq!(writer.max_written(), 5);
    assert_eq!(write_all(&mut writer, &[3, 4, 5, 6]), Ok(()));
    writer.skip(0);
    writer.skip(1);
    assert_eq!(write_all(&mut writer, &[7]), Ok(()));
    assert_eq!(writer.max_written(), 11);
    assert_eq!(writer.residual(), 1);
    assert_eq!(
        writer.into_stores(),
        vec![
            WriteOp { addr: 0x100, data: vec![1, 2] },
            WriteOp { addr: 0x201, data: vec![3, 4, 5] },
            WriteOp { addr: 0x300, data: vec![6] },
            WriteOp { addr: 0x302, data: vec![7] },
        ]
    );
}
