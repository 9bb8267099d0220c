use led_matrix::device::bitmap::encode;
use led_matrix::device::led_matrix::LedMatrix;
use led_matrix::device::{
    Command, CommandFrame, BAUD_RATE, COMMAND_BUFFER_SIZE, LED_MATRIX_HEIGHT, LED_MATRIX_WIDTH,
    MATRIX_BUFFER_SIZE, SERIAL_TIMEOUT_MS,
};

#[test]
fn command_codes() {
    assert_eq!(Command::Brightness(7).code(), 0x00);
    assert_eq!(Command::Pattern(7).code(), 0x01);
    assert_eq!(Command::DisplayBwImage([0u8; MATRIX_BUFFER_SIZE]).code(), 0x06);
}

#[test]
fn pattern_5_frame_is_magic_code_and_id() {
    let frame = CommandFrame::new(&Command::Pattern(5));
    assert_eq!(frame.to_vec(), vec![0x32, 0xAC, 0x01, 0x05]);
    assert_eq!(frame.len(), 4);
}

#[test]
fn brightness_frame_is_magic_code_and_level() {
    let frame = CommandFrame::new(&Command::Brightness(10));
    assert_eq!(frame.to_vec(), vec![0x32, 0xAC, 0x00, 0x0A]);
    assert_eq!(frame.len(), 4);
}

#[test]
fn image_frame_is_magic_code_and_39_bytes() {
    let mut bits = [0u8; MATRIX_BUFFER_SIZE];
    for (i, byte) in bits.iter_mut().enumerate() {
        *byte = (i as u8).wrapping_mul(7).wrapping_add(1);
    }
    let frame = CommandFrame::new(&Command::DisplayBwImage(bits));
    let written = frame.to_vec();
    assert_eq!(frame.len(), 42);
    assert_eq!(written.len(), 42);
    assert_eq!(&written[..3], &[0x32, 0xAC, 0x06]);
    assert_eq!(&written[3..], &bits[..]);
}

#[test]
fn padding_behind_the_frame_is_zero() {
    let frame = CommandFrame::new(&Command::Pattern(0xFF));
    let buffer = frame.buffer();
    assert_eq!(buffer.len(), COMMAND_BUFFER_SIZE);
    assert_eq!(buffer.len(), 64);
    assert_eq!(&buffer[..4], &[0x32, 0xAC, 0x01, 0xFF]);
    assert!(buffer[4..].iter().all(|&byte| byte == 0));

    let image = CommandFrame::new(&Command::DisplayBwImage([0xFF; MATRIX_BUFFER_SIZE]));
    assert!(image.buffer()[..3] == [0x32, 0xAC, 0x06]);
    assert!(image.buffer()[3..42].iter().all(|&byte| byte == 0xFF));
    assert!(image.buffer()[42..].iter().all(|&byte| byte == 0));
}

#[test]
fn every_frame_fits_the_buffer() {
    assert!(CommandFrame::new(&Command::Brightness(0)).len() <= COMMAND_BUFFER_SIZE);
    assert!(CommandFrame::new(&Command::Pattern(0)).len() <= COMMAND_BUFFER_SIZE);
    assert!(3 + MATRIX_BUFFER_SIZE <= COMMAND_BUFFER_SIZE);
}

#[test]
fn a_cloned_frame_is_the_same_frame() {
    let frame = CommandFrame::new(&Command::Brightness(200));
    let copy = frame.clone();
    assert_eq!(copy, frame);
    assert_eq!(copy.to_vec(), vec![0x32, 0xAC, 0x00, 200]);
}

#[test]
fn handle_keeps_its_port_name() {
    let device = LedMatrix::new("/dev/ttyACM0".to_string());
    assert_eq!(device.port_name(), "/dev/ttyACM0");
    assert_eq!(LedMatrix::new(String::new()).port_name(), "");
}

#[test]
fn set_pattern_plans_one_write_on_the_port_of_the_device() {
    let device = LedMatrix::new("/dev/ttyACM3".to_string());
    let transmission = device.set_pattern(5);
    assert_eq!(transmission.port_name, "/dev/ttyACM3");
    assert_eq!(transmission.baud_rate, 115_200);
    assert_eq!(transmission.baud_rate, BAUD_RATE);
    assert_eq!(transmission.timeout_ms, 20);
    assert_eq!(transmission.timeout_ms, SERIAL_TIMEOUT_MS);
    assert_eq!(transmission.frame.to_vec(), vec![0x32, 0xAC, 0x01, 0x05]);
}

#[test]
fn pattern_ids_are_not_validated() {
    let device = LedMatrix::new("COM7".to_string());
    assert_eq!(device.set_pattern(0).frame.to_vec(), vec![0x32, 0xAC, 0x01, 0x00]);
    assert_eq!(device.set_pattern(200).frame.to_vec(), vec![0x32, 0xAC, 0x01, 200]);
    assert_eq!(device.set_pattern(255).frame.to_vec(), vec![0x32, 0xAC, 0x01, 255]);
}

#[test]
fn brightness_is_not_clamped() {
    let device = LedMatrix::new("COM7".to_string());
    assert_eq!(device.set_brightness(0).frame.to_vec(), vec![0x32, 0xAC, 0x00, 0x00]);
    assert_eq!(device.set_brightness(10).frame.to_vec(), vec![0x32, 0xAC, 0x00, 10]);
    assert_eq!(device.set_brightness(255).frame.to_vec(), vec![0x32, 0xAC, 0x00, 255]);
}

#[test]
fn send_command_frames_the_command_it_is_given() {
    let device = LedMatrix::new("COM1".to_string());
    let transmission = device.send_command(&Command::Brightness(77));
    assert_eq!(transmission.port_name, "COM1");
    assert_eq!(transmission.frame, CommandFrame::new(&Command::Brightness(77)));
}

#[test]
fn render_matrix_sends_the_packed_image() {
    let device = LedMatrix::new("/dev/ttyACM1".to_string());
    let mut matrix = [[0u8; LED_MATRIX_HEIGHT]; LED_MATRIX_WIDTH];
    matrix[0][0] = 0xFF;
    matrix[0][1] = 0xFF;
    matrix[8][33] = 0xFF;
    matrix[4][4] = 0x10;
    let transmission = device.render_matrix(&matrix);
    let written = transmission.frame.to_vec();
    let mut expected = vec![0x32, 0xAC, 0x06];
    let mut bits = [0u8; MATRIX_BUFFER_SIZE];
    bits[0] = 0x01;
    bits[1] = 0x02;
    bits[38] = 0x02;
    expected.extend_from_slice(&bits);
    assert_eq!(written, expected);
    assert_eq!(&written[3..], &encode(&matrix)[..]);
    assert_eq!(transmission.port_name, "/dev/ttyACM1");
    assert_eq!(transmission.baud_rate, 115_200);
    assert_eq!(transmission.timeout_ms, 20);
}
