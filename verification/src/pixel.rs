use vstd::prelude::*;

use crate::error::KernelError;
use crate::error::KernelResult;
use crate::rectangle::Rectangle;
use crate::vector::Size;
use crate::vector::Vector2D;

verus! {

/// The number of bytes of a pixel in a frame buffer.
pub const PIXEL_LEN: usize = 4;

/// The order of the colours in the bytes of a pixel.
#[derive(Debug, Copy, Clone, PartialEq, Eq, Structural)]
pub enum PixelFormat {
    Rgb,
    Bgr,
}

/// A colour.
#[derive(Debug, Copy, Clone, PartialEq, Eq, Structural)]
pub struct PixelColor {
    pub r: u8,
    pub g: u8,
    pub b: u8,
}

impl PixelColor {
    pub fn new(r: u8, g: u8, b: u8) -> (color: PixelColor)
        ensures
            color == (PixelColor { r, g, b }),
    {
        PixelColor { r, g, b }
    }

    pub fn white() -> (color: PixelColor)
        ensures
            color == (PixelColor { r: 0xff, g: 0xff, b: 0xff }),
    {
        PixelColor { r: 0xff, g: 0xff, b: 0xff }
    }

    pub fn black() -> (color: PixelColor)
        ensures
            color == (PixelColor { r: 0, g: 0, b: 0 }),
    {
        PixelColor { r: 0, g: 0, b: 0 }
    }
}

/// Where a frame buffer lies and how it is laid out.
#[derive(Debug, Copy, Clone, PartialEq, Eq, Structural)]
pub struct FrameBufferConfig {
    pub frame_buffer_base_addr: u64,
    pub frame_buffer_size: usize,
    pub horizontal_resolution: usize,
    pub vertical_resolution: usize,
    pub pixel_per_scanline: usize,
    pub pixel_format: PixelFormat,
}

/// The four bytes of a pixel of the colour `color` in the format `format`:
/// the three colours in the order of the format, and a zero.
pub open spec fn pixel_bytes(format: PixelFormat, color: PixelColor) -> Seq<u8> {
    match format {
        PixelFormat::Rgb => seq![color.r, color.g, color.b, 0u8],
        PixelFormat::Bgr => seq![color.b, color.g, color.r, 0u8],
    }
}

/// Turns colours into the bytes of a frame buffer.
#[derive(Debug, Copy, Clone, PartialEq, Eq, Structural)]
pub struct EnumPixelMapper {
    pub pixel_format: PixelFormat,
}

impl EnumPixelMapper {
    pub fn new(pixel_format: PixelFormat) -> (mapper: Self)
        ensures
            mapper.pixel_format == pixel_format,
    {
        Self { pixel_format }
    }

    /// The number of bytes of a pixel.
    pub fn pixel_len(&self) -> (len: usize)
        ensures
            len == PIXEL_LEN,
    {
        PIXEL_LEN
    }

    /// The bytes of a pixel of the colour `color`.
    pub fn convert_to_buff(&self, color: &PixelColor) -> (bytes: [u8; 4])
        ensures
            bytes@ == pixel_bytes(self.pixel_format, *color),
    {
        let bytes = match self.pixel_format {
            PixelFormat::Rgb => [color.r, color.g, color.b, 0],
            PixelFormat::Bgr => [color.b, color.g, color.r, 0],
        };
        assert(bytes@ =~= pixel_bytes(self.pixel_format, *color));
        bytes
    }
}

/// The buffer `buff` with the bytes from `from` on replaced by `count`
/// pixels of the bytes `pixel`.
pub open spec fn with_pixels(buff: Seq<u8>, from: int, count: int, pixel: Seq<u8>) -> Seq<u8> {
    Seq::new(
        buff.len(),
        |i: int|
            if from <= i < from + 4 * count {
                pixel[(i - from) % 4]
            } else {
                buff[i]
            },
    )
}

/// The index of the first byte of the pixel at the column `x` of the row
/// `y` in a buffer whose rows are `row_bytes` bytes apart.
pub open spec fn pixel_origin(x: int, y: int, row_bytes: int) -> int {
    4 * x + y * row_bytes
}

/// The buffer `buff` with the rows from `y` up to, not including, `end`
/// filled with `width` pixels of the bytes `pixel` each, from the column
/// `x` on.
pub open spec fn with_rows(
    buff: Seq<u8>,
    x: int,
    y: int,
    end: int,
    width: int,
    row_bytes: int,
    pixel: Seq<u8>,
) -> Seq<u8>
    decreases end - y,
{
    if y >= end {
        buff
    } else {
        with_rows(
            with_pixels(buff, pixel_origin(x, y, row_bytes), width, pixel),
            x,
            y + 1,
            end,
            width,
            row_bytes,
            pixel,
        )
    }
}

/// Writes pixels into a buffer that is laid out like a frame buffer.
#[derive(Debug)]
pub struct BuffPixelWriter {
    buff_size: Size,
    mapper: EnumPixelMapper,
}

impl BuffPixelWriter {
    /// The extent of the buffer; its width is the number of bytes from one
    /// row to the next.
    pub closed spec fn buff_size(&self) -> Size {
        self.buff_size
    }

    pub closed spec fn pixel_format(&self) -> PixelFormat {
        self.mapper.pixel_format
    }

    pub fn new(buff_size: Size, pixel_format: PixelFormat) -> (writer: Self)
        ensures
            writer.buff_size() == buff_size,
            writer.pixel_format() == pixel_format,
    {
        Self { buff_size, mapper: EnumPixelMapper::new(pixel_format) }
    }

    /// The rows of `draw_area` all end inside a buffer of `len` bytes.
    pub open spec fn fits(&self, draw_area: Rectangle<usize>, len: int) -> bool {
        draw_area.origin().y() < draw_area.end().y() ==> pixel_origin(
            draw_area.origin().x() as int,
            draw_area.end().y() - 1,
            self.buff_size().width() as int,
        ) + 4 * draw_area.width() <= len
    }

    /// Fills `draw_area` with the colour `color`: in each of its rows, as
    /// many pixels as the area is wide are written from its left column on.
    pub fn fill_rect(&mut self, buff: &mut [u8], draw_area: Rectangle<usize>, color: &PixelColor)
        requires
            old(self).fits(draw_area, old(buff)@.len() as int),
        ensures
            final(self).buff_size() == old(self).buff_size(),
            final(self).pixel_format() == old(self).pixel_format(),
            final(buff)@ == with_rows(
                old(buff)@,
                draw_area.origin().x() as int,
                draw_area.origin().y() as int,
                draw_area.end().y() as int,
                draw_area.width() as int,
                old(self).buff_size().width() as int,
                pixel_bytes(old(self).pixel_format(), *color),
            ),
    {
        let pixel = self.mapper.convert_to_buff(color);
        let width = draw_area.width();
        let x = draw_area.origin().x();
        let first = draw_area.origin().y();
        let end = draw_area.end().y();
        let row_bytes = self.buff_size.width();
        let ghost pixel_seq = pixel_bytes(self.mapper.pixel_format, *color);
        let ghost target = with_rows(
            buff@,
            x as int,
            first as int,
            end as int,
            width as int,
            row_bytes as int,
            pixel_seq,
        );
        let len: usize = buff.len();
        let mut y: usize = first;
        while y < end
            invariant
                first <= y,
                first < end ==> y <= end,
                pixel@ == pixel_seq,
                buff@.len() == len,
                first < end ==> 4 * x + (end - 1) * row_bytes + 4 * width <= len,
                target == with_rows(
                    buff@,
                    x as int,
                    y as int,
                    end as int,
                    width as int,
                    row_bytes as int,
                    pixel_seq,
                ),
            decreases end - y,
        {
            assert(0 <= y * row_bytes <= (end - 1) * row_bytes) by (nonlinear_arith)
                requires
                    0 <= y <= end - 1,
                    row_bytes >= 0,
            ;
            let origin: usize = 4 * x + y * row_bytes;
            let ghost before = buff@;
            let mut k: usize = 0;
            while k < width
                invariant
                    k <= width,
                    pixel@ == pixel_seq,
                    origin + 4 * width <= len,
                    buff@.len() == len,
                    before.len() == len,
                    buff@ == with_pixels(before, origin as int, k as int, pixel_seq),
                decreases width - k,
            {
                let at: usize = origin + 4 * k;
                buff[at] = pixel[0];
                buff[at + 1] = pixel[1];
                buff[at + 2] = pixel[2];
                buff[at + 3] = pixel[3];
                k = k + 1;
                assert(buff@ =~= with_pixels(before, origin as int, k as int, pixel_seq));
            }
            y = y + 1;
        }
    }

    /// Writes one pixel of the colour `color` at the position `pos`.
    ///
    /// Fails with `ExceededFrameBufferSize`, and writes nothing, where the
    /// pixel does not lie inside the buffer.
    pub fn write(&mut self, buff: &mut [u8], pos: &Vector2D<usize>, color: &PixelColor) -> (r:
        KernelResult)
        ensures
            final(self).buff_size() == old(self).buff_size(),
            final(self).pixel_format() == old(self).pixel_format(),
            pixel_origin(pos.x() as int, pos.y() as int, old(self).buff_size().width() as int) + 4
                > old(buff)@.len() ==> r == Err::<(), KernelError>(
                KernelError::ExceededFrameBufferSize,
            ) && final(buff)@ == old(buff)@,
            pixel_origin(pos.x() as int, pos.y() as int, old(self).buff_size().width() as int) + 4
                <= old(buff)@.len() ==> r == Ok::<(), KernelError>(()) && final(buff)@
                == with_pixels(
                old(buff)@,
                pixel_origin(pos.x() as int, pos.y() as int, old(self).buff_size().width() as int),
                1,
                pixel_bytes(old(self).pixel_format(), *color),
            ),
    {
        let len = buff.len();
        let row_bytes = self.buff_size.width();
        let x = pos.x();
        let y = pos.y();
        if x > len / 4 {
            return Err(KernelError::ExceededFrameBufferSize);
        }
        if y > 0 && row_bytes > len / y {
            assert(y * row_bytes > len) by (nonlinear_arith)
                requires
                    y > 0,
                    row_bytes > len / y,
            ;
            return Err(KernelError::ExceededFrameBufferSize);
        }
        assert(y * row_bytes <= len) by (nonlinear_arith)
            requires
                y == 0 || row_bytes <= len / y,
                y >= 0,
                row_bytes >= 0,
                len >= 0,
        ;
        if 4 * x > len - y * row_bytes || len - y * row_bytes - 4 * x < 4 {
            return Err(KernelError::ExceededFrameBufferSize);
        }
        let origin: usize = 4 * x + y * row_bytes;
        let pixel = self.mapper.convert_to_buff(color);
        let ghost before = buff@;
        buff[origin] = pixel[0];
        buff[origin + 1] = pixel[1];
        buff[origin + 2] = pixel[2];
        buff[origin + 3] = pixel[3];
        assert(buff@ =~= with_pixels(
            before,
            origin as int,
            1,
            pixel_bytes(self.mapper.pixel_format, *color),
        ));
        Ok(())
    }
}

/// The index of the first byte of the pixel at the column `x` of the row
/// `y` in the frame buffer of `config`, or the error for a position
/// outside the resolution.
pub open spec fn pixel_pos(config: FrameBufferConfig, x: usize, y: usize) -> KernelResult<int> {
    if x > config.horizontal_resolution || y > config.vertical_resolution {
        Err(KernelError::ExceededFrameBufferSize)
    } else {
        Ok(4 * (config.pixel_per_scanline * y + x))
    }
}

/// The buffer `buff` with the three bytes from `from` on replaced by the
/// red, the green and the blue of `color`.
pub open spec fn with_rgb(buff: Seq<u8>, from: int, color: PixelColor) -> Seq<u8> {
    buff.update(from, color.r).update(from + 1, color.g).update(from + 2, color.b)
}

/// Writes pixels into a frame buffer that holds red, green and blue in
/// this order.
#[derive(Debug)]
pub struct RgbPixelWriter {
    frame_buffer_config: FrameBufferConfig,
}

impl RgbPixelWriter {
    pub closed spec fn config(&self) -> FrameBufferConfig {
        self.frame_buffer_config
    }

    pub fn new(frame_buffer_config: FrameBufferConfig) -> (writer: Self)
        ensures
            writer.config() == frame_buffer_config,
    {
        Self { frame_buffer_config }
    }

    /// Writes the colour `color` to the pixel at the column `x` of the row
    /// `y` of `frame_buffer`.
    ///
    /// Fails with `ExceededFrameBufferSize`, and writes nothing, where the
    /// position lies outside the resolution or the pixel outside the
    /// buffer.
    pub fn write(&mut self, frame_buffer: &mut [u8], x: usize, y: usize, color: &PixelColor) -> (r:
        KernelResult)
        ensures
            final(self).config() == old(self).config(),
            match pixel_pos(old(self).config(), x, y) {
                Ok(pos) => if pos + 3 <= old(frame_buffer)@.len() {
                    r == Ok::<(), KernelError>(()) && final(frame_buffer)@ == with_rgb(
                        old(frame_buffer)@,
                        pos,
                        *color,
                    )
                } else {
                    &&& r == Err::<(), KernelError>(KernelError::ExceededFrameBufferSize)
                    &&& final(frame_buffer)@ == old(frame_buffer)@
                },
                Err(e) => r == Err::<(), KernelError>(e) && final(frame_buffer)@ == old(frame_buffer)@,
            },
    {
        let config = self.frame_buffer_config;
        if x > config.horizontal_resolution || y > config.vertical_resolution {
            return Err(KernelError::ExceededFrameBufferSize);
        }
        let len = frame_buffer.len();
        let stride = config.pixel_per_scanline;
        if y > 0 && stride > len / y {
            assert(stride * y > len) by (nonlinear_arith)
                requires
                    y > 0,
                    stride > len / y,
            ;
            return Err(KernelError::ExceededFrameBufferSize);
        }
        assert(stride * y <= len) by (nonlinear_arith)
            requires
                y == 0 || stride <= len / y,
                y >= 0,
                stride >= 0,
                len >= 0,
        ;
        if x > len - stride * y || (stride * y + x) > len / 4 {
            return Err(KernelError::ExceededFrameBufferSize);
        }
        let pixel_pos: usize = 4 * (stride * y + x);
        if len - pixel_pos < 3 {
            return Err(KernelError::ExceededFrameBufferSize);
        }
        frame_buffer[pixel_pos] = color.r;
        frame_buffer[pixel_pos + 1] = color.g;
        frame_buffer[pixel_pos + 2] = color.b;
        Ok(())
    }
}

} // verus!
