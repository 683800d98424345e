use nvenc_vaapi_driver::h264::{
    parse_pps, parse_sps, PictureParams, PICTURE_PARAM_SIZE, SEQUENCE_PARAM_SIZE,
};

fn put(bytes: &mut [u8], at: usize, value: u32) {
    bytes[at..at + 4].copy_from_slice(&value.to_le_bytes());
}

fn sps_1080p() -> Vec<u8> {
    let mut b = vec![0u8; SEQUENCE_PARAM_SIZE];
    put(&mut b, 8, 240);
    put(&mut b, 16, 4_000_000);
    b[24..26].copy_from_slice(&120u16.to_le_bytes());
    b[26..28].copy_from_slice(&68u16.to_le_bytes());
    b[1068] = 1;
    put(&mut b, 1084, 4);
    b[1088] = 1;
    put(&mut b, 1108, 1001);
    put(&mut b, 1112, 120_000);
    b
}

#[test]
fn sequence_parameters_are_read_by_offset() {
    let p = parse_sps(&sps_1080p()).unwrap();
    assert_eq!((p.width, p.height), (1920, 1080));
    assert_eq!((p.bits_per_second, p.idr_period), (4_000_000, 240));
    assert_eq!(p.fps, 59);
}

#[test]
fn sequence_parameters_without_cropping_or_timing() {
    let mut b = sps_1080p();
    b[1068] = 0;
    b[1088] = 0;
    let p = parse_sps(&b).unwrap();
    assert_eq!((p.width, p.height, p.fps), (1920, 1088, 0));
    b[1088] = 1;
    put(&mut b, 1108, 0);
    assert_eq!(parse_sps(&b).unwrap().fps, 0);
    b[1068] = 1;
    put(&mut b, 1072, u32::MAX);
    assert_eq!(parse_sps(&b).unwrap().width, 0);
}

#[test]
fn picture_parameters_are_read_by_offset() {
    let mut b = vec![0u8; PICTURE_PARAM_SIZE];
    put(&mut b, 612, 0x0102_0304);
    b[628] = 3;
    assert_eq!(parse_pps(&b), Some(PictureParams { force_idr: true, coded_buf: 0x0102_0304 }));
    b[628] = 2;
    assert!(!parse_pps(&b).unwrap().force_idr);
}

#[test]
fn short_parameter_buffers_say_nothing() {
    assert!(parse_sps(&vec![0u8; SEQUENCE_PARAM_SIZE - 1]).is_none());
    assert!(parse_pps(&vec![0u8; PICTURE_PARAM_SIZE - 1]).is_none());
    assert_eq!(PictureParams::default(), PictureParams { force_idr: false, coded_buf: 0 });
}
