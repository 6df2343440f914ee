use xhc_core::error::KernelError;
use xhc_core::pixel::BuffPixelWriter;
use xhc_core::pixel::EnumPixelMapper;
use xhc_core::pixel::FrameBufferConfig;
use xhc_core::pixel::PixelColor;
use xhc_core::pixel::PixelFormat;
use xhc_core::pixel::RgbPixelWriter;
use xhc_core::rectangle::Rectangle;
use xhc_core::vector::Size;
use xhc_core::vector::Vector2D;

fn array_eq(a: &[u8], b: &[u8]) -> bool {
    a == b
}

#[test]
fn it_write_buff() {
    let mut writer = BuffPixelWriter::new(Size::new(100, 100), PixelFormat::Bgr);
    let mut buff = vec![0; 100 * 100];
    writer
        .write(
            buff.as_mut_slice(),
            &Vector2D::zeros(),
            &PixelColor::white(),
        )
        .unwrap();

    let mut expect = vec![0; 100 * 100];
    expect[0..4].copy_from_slice(&[0xFF, 0xFF, 0xFF, 0x00]);

    assert!(array_eq(buff.as_slice(), expect.as_slice()))
}

#[test]
fn it_write_from_2line() {
    let mut writer = BuffPixelWriter::new(Size::new(100 * 4, 100 * 4), PixelFormat::Rgb);

    let mut buff = vec![0; 400 * 400];
    writer
        .write(
            buff.as_mut_slice(),
            &Vector2D::new(0, 2),
            &PixelColor::white(),
        )
        .unwrap();

    assert!(array_eq(&buff[800..804], &[0xFF, 0xFF, 0xFF, 0x00]));
}

#[test]
fn colours_are_mapped_in_the_order_of_the_format() {
    let color = PixelColor::new(1, 2, 3);
    assert_eq!(EnumPixelMapper::new(PixelFormat::Rgb).convert_to_buff(&color), [1, 2, 3, 0]);
    assert_eq!(EnumPixelMapper::new(PixelFormat::Bgr).convert_to_buff(&color), [3, 2, 1, 0]);
    assert_eq!(EnumPixelMapper::new(PixelFormat::Bgr).pixel_len(), 4);
    assert_eq!(PixelColor::black(), PixelColor::new(0, 0, 0));
}

#[test]
fn a_pixel_is_written_at_its_column_and_row() {
    let mut writer = BuffPixelWriter::new(Size::new(16, 4), PixelFormat::Bgr);
    let mut buff = vec![0xee; 64];
    assert_eq!(writer.write(&mut buff, &Vector2D::new(3, 1), &PixelColor::new(1, 2, 3)), Ok(()));
    let mut expect = vec![0xee; 64];
    expect[28..32].copy_from_slice(&[3, 2, 1, 0]);
    assert_eq!(buff, expect);
}

#[test]
fn a_pixel_outside_the_buffer_is_refused() {
    let mut writer = BuffPixelWriter::new(Size::new(16, 4), PixelFormat::Rgb);
    let mut buff = vec![0; 64];
    let color = PixelColor::white();
    assert_eq!(
        writer.write(&mut buff, &Vector2D::new(0, 4), &color),
        Err(KernelError::ExceededFrameBufferSize)
    );
    assert_eq!(
        writer.write(&mut buff, &Vector2D::new(16, 0), &color),
        Err(KernelError::ExceededFrameBufferSize)
    );
    assert_eq!(
        writer.write(&mut buff, &Vector2D::new(usize::MAX, usize::MAX), &color),
        Err(KernelError::ExceededFrameBufferSize)
    );
    assert_eq!(buff, vec![0; 64]);
    assert_eq!(writer.write(&mut buff, &Vector2D::new(3, 3), &color), Ok(()));
    assert_eq!(&buff[60..64], &[0xff, 0xff, 0xff, 0]);
    let mut short = vec![0; 63];
    assert_eq!(
        writer.write(&mut short, &Vector2D::new(3, 3), &color),
        Err(KernelError::ExceededFrameBufferSize)
    );
}

#[test]
fn a_rectangle_is_filled_row_by_row() {
    let mut writer = BuffPixelWriter::new(Size::new(16, 4), PixelFormat::Rgb);
    let mut buff = vec![0; 64];
    let area = Rectangle::new(Vector2D::new(1, 1), Vector2D::new(3, 3));
    writer.fill_rect(&mut buff, area, &PixelColor::new(1, 2, 3));
    let mut expect = vec![0; 64];
    for y in 1..3 {
        for x in 1..3 {
            expect[16 * y + 4 * x..16 * y + 4 * x + 4].copy_from_slice(&[1, 2, 3, 0]);
        }
    }
    assert_eq!(buff, expect);
}

#[test]
fn an_empty_rectangle_fills_nothing() {
    let mut writer = BuffPixelWriter::new(Size::new(16, 4), PixelFormat::Rgb);
    let mut buff = vec![7; 64];
    writer.fill_rect(
        &mut buff,
        Rectangle::new(Vector2D::new(2, 2), Vector2D::new(2, 4)),
        &PixelColor::white(),
    );
    writer.fill_rect(
        &mut buff,
        Rectangle::new(Vector2D::new(0, 3), Vector2D::new(4, 3)),
        &PixelColor::white(),
    );
    assert_eq!(buff, vec![7; 64]);
}

#[test]
fn a_rectangle_can_cover_the_whole_buffer() {
    let mut writer = BuffPixelWriter::new(Size::new(8, 2), PixelFormat::Bgr);
    let mut buff = vec![0; 16];
    writer.fill_rect(
        &mut buff,
        Rectangle::new(Vector2D::new(0, 0), Vector2D::new(2, 2)),
        &PixelColor::new(1, 2, 3),
    );
    assert_eq!(buff, [3, 2, 1, 0].repeat(4));
}

fn config() -> FrameBufferConfig {
    FrameBufferConfig {
        frame_buffer_base_addr: 0x8000_0000,
        frame_buffer_size: 64,
        horizontal_resolution: 3,
        vertical_resolution: 3,
        pixel_per_scanline: 4,
        pixel_format: PixelFormat::Rgb,
    }
}

#[test]
fn rgb_writer_writes_red_green_and_blue() {
    let mut writer = RgbPixelWriter::new(config());
    let mut buff = vec![0xee; 64];
    assert_eq!(writer.write(&mut buff, 2, 1, &PixelColor::new(1, 2, 3)), Ok(()));
    let mut expect = vec![0xee; 64];
    expect[24..27].copy_from_slice(&[1, 2, 3]);
    assert_eq!(buff, expect);
}

#[test]
fn rgb_writer_refuses_positions_outside_the_resolution_or_the_buffer() {
    let mut writer = RgbPixelWriter::new(config());
    let mut buff = vec![0; 64];
    let color = PixelColor::white();
    assert_eq!(writer.write(&mut buff, 4, 0, &color), Err(KernelError::ExceededFrameBufferSize));
    assert_eq!(writer.write(&mut buff, 0, 4, &color), Err(KernelError::ExceededFrameBufferSize));
    assert_eq!(writer.write(&mut buff, 3, 3, &color), Ok(()));
    assert_eq!(&buff[60..64], &[0xff, 0xff, 0xff, 0]);
    let mut short = vec![0; 62];
    assert_eq!(writer.write(&mut short, 3, 3, &color), Err(KernelError::ExceededFrameBufferSize));
    assert_eq!(short, vec![0; 62]);
    let mut exact = vec![0; 63];
    assert_eq!(writer.write(&mut exact, 3, 3, &color), Ok(()));
}
