use fox::device::Device;
use fox::dma::DirectMemoryAccess;
use fox::memory::{
    SCREEN_CMD_ADDR, SCREEN_CMD_LENGTH, SCREEN_HEIGHT, SCREEN_LAYER0, SCREEN_LAYER1, SCREEN_LAYER2,
    SCREEN_PALETTE0, SCREEN_VECTOR, SCREEN_WIDTH, SCREEN_ZOOM,
};
use fox::screen::{to_rgba, Display, ScreenDevice, Sprite, SpriteCommand, MAX_PIXELS};
use fox::vm::Fault;

#[derive(Default)]
struct Recorder {
    frames: Vec<(Vec<u8>, Vec<u32>)>,
    resizes: Vec<(u32, u32, u32)>,
}

impl Display for Recorder {
    fn resize(&mut self, width: u32, height: u32, zoom: u32) {
        self.resizes.push((width, height, zoom));
    }
    fn render(&mut self, buffer: &[u8], palette: &[u32]) {
        self.frames.push((buffer.to_vec(), palette.to_vec()));
    }
}

fn command(dma: &mut DirectMemoryAccess, at: u32, x: u32, y: u32, source: u32, op_layer: u8, color: u8, repeat: u8) {
    dma.write_u32(at, x);
    dma.write_u32(at + 4, y);
    dma.write_u32(at + 8, source);
    dma.write(at + 12, &[op_layer, 0, color, repeat]);
}

fn layer_byte(screen: &ScreenDevice<Recorder>, base: u32, i: u32) -> u8 {
    screen.read_layer(base + i).unwrap()
}

#[test]
fn sprite1_blit_paints_rows() {
    let mut dma = DirectMemoryAccess::new();
    dma.write(0x1000, &[0xFF, 0x00, 0xFF, 0x00, 0xFF, 0x00, 0xFF, 0x00]);
    command(&mut dma, 0x2000, 0, 0, 0x1000, 0x10, 0x12, 0x00);
    let mut screen = ScreenDevice::new(Recorder::default());
    screen.write_register(SCREEN_CMD_LENGTH, 1, &dma).unwrap();
    screen.write_register(SCREEN_CMD_ADDR, 0x2000, &dma).unwrap();
    let row = 512 / 2;
    for y in 0..8u32 {
        let want = if y % 2 == 0 { 0x11 } else { 0x22 };
        for i in 0..4u32 {
            assert_eq!(layer_byte(&screen, SCREEN_LAYER0, y * row + i), want);
        }
        assert_eq!(layer_byte(&screen, SCREEN_LAYER0, y * row + 4), 0);
    }
    assert_eq!(layer_byte(&screen, SCREEN_LAYER0, 8 * row), 0);
    assert_eq!(layer_byte(&screen, SCREEN_LAYER1, 0), 0);
}

#[test]
fn clear_zeroes_only_its_layer() {
    let mut dma = DirectMemoryAccess::new();
    let mut screen = ScreenDevice::new(Recorder::default());
    for i in 0..64u32 {
        screen.write_layer(SCREEN_LAYER0 + i * 997, 0x5A).unwrap();
        screen.write_layer(SCREEN_LAYER1 + i * 997, 0xA5).unwrap();
    }
    command(&mut dma, 0x2000, 0, 0, 0, 0x01, 0, 0);
    screen.write_register(SCREEN_CMD_LENGTH, 1, &dma).unwrap();
    screen.write_register(SCREEN_CMD_ADDR, 0x2000, &dma).unwrap();
    let size = 512 * 320 / 2;
    for i in 0..size {
        assert_eq!(layer_byte(&screen, SCREEN_LAYER1, i), 0);
    }
    for i in 0..64u32 {
        assert_eq!(layer_byte(&screen, SCREEN_LAYER0, i * 997), 0x5A);
    }
}

#[test]
fn pixel_round_trip() {
    let mut screen = ScreenDevice::new(Recorder::default());
    screen.set_pixel(2, 3, 2, 7);
    screen.set_pixel(2, 2, 2, 0x1C);
    let b = layer_byte(&screen, SCREEN_LAYER2, 2 * 256 + 1);
    assert_eq!(b, 0xC7);
    screen.set_pixel(2, 3, 2, 4);
    assert_eq!(layer_byte(&screen, SCREEN_LAYER2, 2 * 256 + 1), 0xC4);
    // Off-screen pixels are dropped.
    screen.set_pixel(0, 512, 0, 5);
    screen.set_pixel(0, 0, 320, 5);
    assert_eq!(layer_byte(&screen, SCREEN_LAYER0, 0), 0);
}

#[test]
fn sprite4_and_tiles() {
    let mut dma = DirectMemoryAccess::new();
    let mut data = vec![0u8; 64];
    data[0] = 0x12;
    data[3] = 0x34;
    data[32] = 0x56;
    dma.write(0x1000, &data);
    command(&mut dma, 0x2000, 0, 0, 0x1000, 0x21, 0, 0x10);
    let mut screen = ScreenDevice::new(Recorder::default());
    assert_eq!(screen.process_command(0x2000, &dma), Ok(()));
    assert_eq!(layer_byte(&screen, SCREEN_LAYER1, 0), 0x12);
    assert_eq!(layer_byte(&screen, SCREEN_LAYER1, 3), 0x34);
    // The second tile sits 8 pixels to the right.
    assert_eq!(layer_byte(&screen, SCREEN_LAYER1, 4), 0x56);
}

#[test]
fn tiles_wrap_to_next_row() {
    let mut dma = DirectMemoryAccess::new();
    let mut pattern = vec![0u8; 32];
    pattern[24] = 0x80;
    dma.write(0x1000, &pattern);
    // Two tiles across, two down: tile 3 starts at source + 24, drawn at (8, 8).
    command(&mut dma, 0x2000, 0, 0, 0x1000, 0x10, 0x30, 0x11);
    let mut screen = ScreenDevice::new(Recorder::default());
    assert_eq!(screen.process_command(0x2000, &dma), Ok(()));
    assert_eq!(layer_byte(&screen, SCREEN_LAYER0, 8 * 256 + 4), 0x30);
    assert_eq!(layer_byte(&screen, SCREEN_LAYER0, 8 * 256), 0x00);
}

#[test]
fn bad_commands_fail() {
    let mut dma = DirectMemoryAccess::new();
    let mut screen = ScreenDevice::new(Recorder::default());
    command(&mut dma, 0x2000, 0, 0, 0, 0x30, 0, 0);
    assert_eq!(screen.process_command(0x2000, &dma), Err(Fault::BadCommand));
    command(&mut dma, 0x2000, 0, 0, 0, 0x05, 0, 0);
    assert_eq!(screen.process_command(0x2000, &dma), Err(Fault::BadCommand));
    command(&mut dma, 0x2000, 0, 0, 0x00FF_FFFC, 0x10, 0, 0);
    assert_eq!(screen.process_command(0x2000, &dma), Err(Fault::MemoryOutOfRange));
    screen.write_register(SCREEN_CMD_LENGTH, 1, &dma).unwrap();
    assert_eq!(screen.write_register(SCREEN_CMD_ADDR, 0x00FF_FFF8, &dma), Err(Fault::MemoryOutOfRange));
}

#[test]
fn resize_clamps_and_notifies() {
    let dma = DirectMemoryAccess::new();
    let mut screen = ScreenDevice::new(Recorder::default());
    screen.write_register(SCREEN_WIDTH, 4, &dma).unwrap();
    screen.write_register(SCREEN_HEIGHT, 0, &dma).unwrap();
    screen.write_register(SCREEN_ZOOM, 0, &dma).unwrap();
    assert_eq!(screen.size(), (8, 8));
    assert_eq!(screen.read_register(SCREEN_ZOOM), Ok(1));
    assert_eq!(screen.display.resizes, vec![(8, 320, 1), (8, 8, 1), (8, 8, 1)]);
    assert_eq!(screen.read_layer(SCREEN_LAYER0 + 31), Ok(0));
    assert_eq!(screen.read_layer(SCREEN_LAYER0 + 32), Err(Fault::UnknownRegister));
    screen.write_register(SCREEN_WIDTH, u32::MAX, &dma).unwrap();
    assert_eq!(screen.size(), (MAX_PIXELS / 8, 8));
}

#[test]
fn resize_keeps_leading_bytes() {
    let dma = DirectMemoryAccess::new();
    let mut screen = ScreenDevice::new(Recorder::default());
    screen.write_layer(SCREEN_LAYER1 + 3, 0x77).unwrap();
    screen.write_register(SCREEN_HEIGHT, 16, &dma).unwrap();
    assert_eq!(screen.read_layer(SCREEN_LAYER1 + 3), Ok(0x77));
}

#[test]
fn registers_read_back() {
    let dma = DirectMemoryAccess::new();
    let mut screen = ScreenDevice::new(Recorder::default());
    assert_eq!(screen.read_register(SCREEN_WIDTH), Ok(512));
    assert_eq!(screen.read_register(SCREEN_HEIGHT), Ok(320));
    assert_eq!(screen.read_register(SCREEN_PALETTE0 + 4), Ok(0x5d275d));
    screen.write_register(SCREEN_VECTOR, 0x300, &dma).unwrap();
    screen.write_register(SCREEN_PALETTE0 + 12, 0xABCDEF, &dma).unwrap();
    assert_eq!(screen.read_register(SCREEN_VECTOR), Ok(0x300));
    assert_eq!(screen.vector, 0x300);
    assert_eq!(screen.read_register(SCREEN_PALETTE0 + 12), Ok(0xABCDEF));
    assert_eq!(screen.read_register(SCREEN_PALETTE0 + 1), Err(Fault::UnknownRegister));
    assert_eq!(screen.write_register(SCREEN_PALETTE0 + 64, 1, &dma), Err(Fault::UnknownRegister));
    assert_eq!(screen.read_register(SCREEN_CMD_ADDR), Err(Fault::UnknownRegister));
}

#[test]
fn render_composites_with_transparency() {
    let mut screen = ScreenDevice::new(Recorder::default());
    screen.write_layer(SCREEN_LAYER0, 0x12).unwrap();
    screen.write_layer(SCREEN_LAYER1, 0x30).unwrap();
    screen.write_layer(SCREEN_LAYER0 + 1, 0x45).unwrap();
    screen.write_layer(SCREEN_LAYER2 + 1, 0x06).unwrap();
    screen.render();
    let (frame, palette) = &screen.display.frames[0];
    assert_eq!(frame.len(), 512 * 320 / 2);
    assert_eq!(frame[0], 0x32);
    assert_eq!(frame[1], 0x46);
    assert_eq!(frame[2], 0);
    assert_eq!(palette.len(), 16);
    assert_eq!(palette[0], 0x1a1c2c);
}

#[test]
fn sprite_reads_patterns() {
    let mut dma = DirectMemoryAccess::new();
    dma.write(0x40, &[0b1000_0001, 0, 0, 0, 0, 0, 0, 0x01]);
    let mut sprite = Sprite::new();
    sprite.read_1bpp(0x40, 3, 4, &dma);
    let mut screen = ScreenDevice::new(Recorder::default());
    sprite.draw(0, 0, 0, &mut screen);
    assert_eq!(layer_byte(&screen, SCREEN_LAYER0, 0), 0x34);
    assert_eq!(layer_byte(&screen, SCREEN_LAYER0, 3), 0x43);
    assert_eq!(layer_byte(&screen, SCREEN_LAYER0, 7 * 256 + 3), 0x43);
}

#[test]
fn command_fields_decode() {
    let mut dma = DirectMemoryAccess::new();
    command(&mut dma, 0x80, 1, 2, 3, 0x21, 0x9A, 0x3F);
    let c = SpriteCommand::read(0x80, &dma);
    assert_eq!((c.x, c.y, c.source, c.op, c.layer, c.color, c.repeat), (1, 2, 3, 2, 1, 0x9A, 0x3F));
}

#[test]
fn frame_converts_to_rgba() {
    let mut palette = vec![0u32; 16];
    palette[1] = 0xFF11_2233;
    palette[2] = 0x0044_5566;
    let rgba = to_rgba(&[0x12, 0x00], &palette);
    assert_eq!(rgba, vec![0x11, 0x22, 0x33, 0xFF, 0x44, 0x55, 0x66, 0xFF, 0, 0, 0, 0xFF, 0, 0, 0, 0xFF]);
}

#[test]
fn width_is_kept_even() {
    let dma = DirectMemoryAccess::new();
    let mut screen = ScreenDevice::new(Recorder::default());
    screen.write_register(SCREEN_WIDTH, 9, &dma).unwrap();
    assert_eq!(screen.size(), (8, 320));
    screen.write_register(SCREEN_WIDTH, 17, &dma).unwrap();
    assert_eq!(screen.size(), (16, 320));
}

#[test]
fn failed_command_keeps_earlier_ones() {
    let mut dma = DirectMemoryAccess::new();
    dma.write(0x1000, &[0xFF; 8]);
    command(&mut dma, 0x2000, 0, 0, 0x1000, 0x10, 0x50, 0);
    command(&mut dma, 0x2010, 0, 0, 0, 0x30, 0, 0);
    command(&mut dma, 0x2020, 0, 0, 0, 0x00, 0, 0);
    let mut screen = ScreenDevice::new(Recorder::default());
    screen.write_register(SCREEN_CMD_LENGTH, 3, &dma).unwrap();
    assert_eq!(screen.write_register(SCREEN_CMD_ADDR, 0x2000, &dma), Err(Fault::BadCommand));
    // The first command drew; the clear after the failing one never ran.
    assert_eq!(layer_byte(&screen, SCREEN_LAYER0, 0), 0x55);
}

#[test]
fn device_interface_reaches_registers() {
    let mut dma = DirectMemoryAccess::new();
    dma.write(0x1000, &[0xFF, 0, 0xFF, 0, 0xFF, 0, 0xFF, 0]);
    command(&mut dma, 0x2000, 0, 0, 0x1000, 0x10, 0x12, 0);
    let mut screen = ScreenDevice::new(Recorder::default());
    screen.write_u32(SCREEN_CMD_LENGTH, 1, &mut dma).unwrap();
    screen.write_u32(SCREEN_CMD_ADDR, 0x2000, &mut dma).unwrap();
    assert_eq!(screen.read_u8(SCREEN_LAYER0 + 256, &mut dma), Ok(0x22));
    screen.write_u8(SCREEN_LAYER1 + 5, 0x9C, &mut dma).unwrap();
    assert_eq!(screen.read_u8(SCREEN_LAYER1 + 5, &mut dma), Ok(0x9C));
    screen.write_u32(SCREEN_PALETTE0 + 60, 0x123456, &mut dma).unwrap();
    assert_eq!(screen.read_u32(SCREEN_PALETTE0 + 60, &mut dma), Ok(0x123456));
    assert_eq!(screen.read_u32(SCREEN_WIDTH, &mut dma), Ok(512));
}
