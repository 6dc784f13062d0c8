use ads::commands::WriteReadRequest;
use ads::utils::fixup_write_read_return_buffers;

#[test]
fn test_fixup_buffers() {
    let mut buf0 = *b"12345678AB";
    let mut buf1 = *b"CDEFabc";
    let mut buf2 = *b"dxyUVW";
    let mut buf3 = *b"XYZY";
    let mut buf4 = *b"XW----";
    let mut buf5 = *b"-------------";
    let reqs = &mut [
        WriteReadRequest::new(0, 0, &[], &mut buf0),
        WriteReadRequest::new(0, 0, &[], &mut buf1),
        WriteReadRequest::new(0, 0, &[], &mut buf2),
        WriteReadRequest::new(0, 0, &[], &mut buf3),
        WriteReadRequest::new(0, 0, &[], &mut buf4),
        WriteReadRequest::new(0, 0, &[], &mut buf5),
    ];
    reqs[0].res.length = 8;
    reqs[1].res.length = 6;
    reqs[2].res.length = 0;
    reqs[3].res.length = 4;
    reqs[4].res.length = 2;
    reqs[5].res.length = 9;

    fixup_write_read_return_buffers(reqs);

    assert!(&reqs[5].rbuf[..9] == b"UVWXYZYXW");
    assert!(&reqs[4].rbuf[..2] == b"xy");
    assert!(&reqs[3].rbuf[..4] == b"abcd");
    assert!(&reqs[1].rbuf[..6] == b"ABCDEF");
    assert!(&reqs[0].rbuf[..8] == b"12345678");
}

#[test]
fn full_buffers_stay_as_they_are() {
    let mut buf0 = *b"abc";
    let mut buf1 = *b"de";
    let reqs = &mut [
        WriteReadRequest::new(0, 0, &[], &mut buf0),
        WriteReadRequest::new(0, 0, &[], &mut buf1),
    ];
    reqs[0].res.length = 3;
    reqs[1].res.length = 2;
    fixup_write_read_return_buffers(reqs);
    assert_eq!(buf0, *b"abc");
    assert_eq!(buf1, *b"de");
}

#[test]
fn what_is_behind_the_data_of_a_buffer_stays() {
    let mut buf0 = *b"aXY";
    let mut buf1 = *b"Z12345";
    let reqs = &mut [
        WriteReadRequest::new(0, 0, &[], &mut buf0),
        WriteReadRequest::new(0, 0, &[], &mut buf1),
    ];
    reqs[0].res.length = 1;
    reqs[1].res.length = 3;
    fixup_write_read_return_buffers(reqs);
    assert_eq!(buf0, *b"aXY");
    assert_eq!(buf1, *b"XYZ345");
}

#[test]
fn nothing_to_fix_up() {
    fixup_write_read_return_buffers(&mut []);
}
