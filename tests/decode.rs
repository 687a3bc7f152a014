use tinybmp::{
    Bpp, ChannelMasks, ColorType, Header, ParseError, Point, RawBmp, RawPixel, RawPixels,
    RowOrder, Size, SliceReader,
};
use tinybmp::raw_bmp::check_bit_depth;
use tinybmp::reader::BmpReaderError;

fn put_u16(out: &mut Vec<u8>, v: u16) {
    out.extend_from_slice(&v.to_le_bytes());
}

fn put_u32(out: &mut Vec<u8>, v: u32) {
    out.extend_from_slice(&v.to_le_bytes());
}

/// A BMP file with the given DIB header fields; `data` holds the padded rows in file order and
/// `gap` bytes of filler lie between the color table and the image data.
#[allow(clippy::too_many_arguments)]
fn bmp_file(
    header_len: u32,
    width: i32,
    height: i32,
    bpp: u16,
    compression: u32,
    masks: Option<[u32; 4]>,
    palette: &[[u8; 4]],
    gap: usize,
    data: &[u8],
) -> Vec<u8> {
    let data_start = 14 + header_len as usize + palette.len() * 4 + gap;
    let file_size = data_start + data.len();
    let mut out = Vec::new();
    out.extend_from_slice(b"BM");
    put_u32(&mut out, file_size as u32);
    put_u32(&mut out, 0);
    put_u32(&mut out, data_start as u32);
    put_u32(&mut out, header_len);
    put_u32(&mut out, width as u32);
    put_u32(&mut out, height as u32);
    put_u16(&mut out, 1);
    put_u16(&mut out, bpp);
    put_u32(&mut out, compression);
    put_u32(&mut out, data.len() as u32);
    put_u32(&mut out, 2835);
    put_u32(&mut out, 2835);
    put_u32(&mut out, palette.len() as u32);
    put_u32(&mut out, 0);
    if let Some(m) = masks {
        for v in m {
            put_u32(&mut out, v);
        }
    }
    while out.len() < 14 + header_len as usize {
        out.push(0);
    }
    for entry in palette {
        out.extend_from_slice(entry);
    }
    out.resize(data_start, 0xee);
    out.extend_from_slice(data);
    out
}

/// Packs one row of raw values and pads it to a multiple of four bytes.
fn pack_row(values: &[u32], bpp: u16) -> Vec<u8> {
    let mut row = Vec::new();
    match bpp {
        1 | 4 => {
            let per_byte = 8 / bpp as usize;
            for group in values.chunks(per_byte) {
                let mut byte = 0u8;
                for (i, v) in group.iter().enumerate() {
                    byte |= (*v as u8) << (8 - bpp as usize * (i + 1));
                }
                row.push(byte);
            }
        }
        _ => {
            for v in values {
                row.extend_from_slice(&v.to_le_bytes()[..bpp as usize / 8]);
            }
        }
    }
    while row.len() % 4 != 0 {
        row.push(0);
    }
    row
}

/// Stores `rows` (top row first) in the given row order.
fn image_data(rows: &[Vec<u32>], bpp: u16, order: RowOrder) -> Vec<u8> {
    let mut data = Vec::new();
    let mut packed: Vec<Vec<u8>> = rows.iter().map(|r| pack_row(r, bpp)).collect();
    if order == RowOrder::BottomUp {
        packed.reverse();
    }
    for r in packed {
        data.extend_from_slice(&r);
    }
    data
}

fn collect(mut pixels: RawPixels<'_, SliceReader<'_>>) -> Vec<RawPixel> {
    let mut out = Vec::new();
    while let Some(p) = pixels.next() {
        out.push(p);
    }
    out
}

fn palette_for(bpp: u16) -> Vec<[u8; 4]> {
    match bpp {
        1 => vec![[0, 0, 0, 0], [255, 255, 255, 0]],
        4 | 8 => (0..16u8).map(|i| [i, i * 2, i * 3, 0]).collect(),
        _ => Vec::new(),
    }
}

/// Checkerboard of two raw values for each bit depth.
fn checker_values(bpp: u16) -> (u32, u32) {
    match bpp {
        1 => (0, 1),
        4 => (3, 12),
        8 => (5, 9),
        16 => (0x7c00, 0x001f),
        24 => (0x12_34_56, 0xab_cd_ef),
        _ => (0xaa_11_22_33, 0x55_44_55_66),
    }
}

fn checkerboard(width: usize, height: usize, bpp: u16) -> Vec<Vec<u32>> {
    let (a, b) = checker_values(bpp);
    (0..height)
        .map(|y| (0..width).map(|x| if (x + y) % 2 == 0 { a } else { b }).collect())
        .collect()
}

fn checker_file(width: usize, height: usize, bpp: u16, order: RowOrder) -> Vec<u8> {
    let rows = checkerboard(width, height, bpp);
    let data = image_data(&rows, bpp, order);
    let h = if order == RowOrder::TopDown {
        -(height as i32)
    } else {
        height as i32
    };
    bmp_file(40, width as i32, h, bpp, 0, None, &palette_for(bpp), 0, &data)
}

#[test]
fn checkerboard_all_depths_row_major() {
    for bpp in [1u16, 4, 8, 16, 24, 32] {
        let (width, height) = (5usize, 3usize);
        let file = checker_file(width, height, bpp, RowOrder::BottomUp);
        let bmp: RawBmp = RawBmp::from_slice(&file).unwrap();
        let pixels = collect(bmp.pixels());
        assert_eq!(pixels.len(), width * height, "bpp {}", bpp);
        let rows = checkerboard(width, height, bpp);
        for (i, p) in pixels.iter().enumerate() {
            let (x, y) = (i % width, i / width);
            assert_eq!(p.position, Point::new(x as i32, y as i32), "bpp {}", bpp);
            let expected = if bpp == 32 {
                rows[y][x] & 0x00ff_ffff
            } else {
                rows[y][x]
            };
            assert_eq!(p.color, expected, "bpp {} at {:?}", bpp, (x, y));
        }
    }
}

#[test]
fn color_types_of_depths() {
    let expected = [
        (1u16, ColorType::Index1),
        (4, ColorType::Index4),
        (8, ColorType::Index8),
        (16, ColorType::Rgb555),
        (24, ColorType::Rgb888),
        (32, ColorType::Xrgb8888),
    ];
    for (bpp, ct) in expected {
        let file = checker_file(2, 2, bpp, RowOrder::TopDown);
        let bmp: RawBmp = RawBmp::from_slice(&file).unwrap();
        assert_eq!(bmp.color_type(), ct);
        assert_eq!(bmp.header().bpp.bits(), bpp);
    }
}

#[test]
fn bottom_up_and_top_down_decode_alike() {
    for bpp in [1u16, 4, 8, 16, 24, 32] {
        let top = checker_file(3, 4, bpp, RowOrder::TopDown);
        let bottom = checker_file(3, 4, bpp, RowOrder::BottomUp);
        let top_bmp: RawBmp = RawBmp::from_slice(&top).unwrap();
        let bottom_bmp: RawBmp = RawBmp::from_slice(&bottom).unwrap();
        assert_eq!(top_bmp.header().row_order, RowOrder::TopDown);
        assert_eq!(bottom_bmp.header().row_order, RowOrder::BottomUp);
        assert_eq!(collect(top_bmp.pixels()), collect(bottom_bmp.pixels()));
    }
}

#[test]
fn streaming_matches_slice() {
    for bpp in [1u16, 4, 8, 16, 24, 32] {
        for order in [RowOrder::TopDown, RowOrder::BottomUp] {
            let file = checker_file(7, 5, bpp, order);
            let slice_bmp: RawBmp = RawBmp::from_slice(&file).unwrap();
            let row_len = slice_bmp.header().bytes_per_row();
            let reader = SliceReader::with_buffer_size(&file, row_len);
            let mut header_buffer = [0u8; 256];
            let stream_bmp = RawBmp::from_reader(&reader, &mut header_buffer).unwrap();
            assert_eq!(stream_bmp.header(), slice_bmp.header());
            assert!(stream_bmp.image_data().is_empty());
            assert_eq!(
                collect(stream_bmp.pixels()),
                collect(slice_bmp.pixels()),
                "bpp {}",
                bpp
            );
        }
    }
}

#[test]
fn streaming_refuses_rows_larger_than_buffer() {
    let file = checker_file(7, 5, 24, RowOrder::BottomUp);
    let reader = SliceReader::with_buffer_size(&file, 23);
    let mut header_buffer = [0u8; 256];
    assert_eq!(
        RawBmp::from_reader(&reader, &mut header_buffer).err(),
        Some(ParseError::Reader(BmpReaderError::RequestedChunkTooLarge))
    );
}

#[test]
fn streaming_needs_room_for_header() {
    let file = checker_file(2, 2, 24, RowOrder::BottomUp);
    let reader = SliceReader::new(&file);
    let mut header_buffer = [0u8; 20];
    assert_eq!(
        RawBmp::from_reader(&reader, &mut header_buffer).err(),
        Some(ParseError::UnsupportedHeaderLength(54))
    );
}

#[test]
fn streaming_short_source_is_end_of_file() {
    let reader = SliceReader::new(b"BM\x00\x00");
    let mut header_buffer = [0u8; 64];
    assert_eq!(
        RawBmp::from_reader(&reader, &mut header_buffer).err(),
        Some(ParseError::UnexpectedEndOfFile)
    );
}

#[test]
fn palette_round_trip() {
    let palette: Vec<[u8; 4]> = (0..16u8).map(|i| [i * 10, i * 5, 255 - i, 0]).collect();
    let indices: Vec<Vec<u32>> = vec![
        vec![0, 1, 2, 3, 4, 5],
        vec![15, 14, 13, 12, 11, 10],
        vec![7, 7, 8, 8, 9, 6],
    ];
    let data = image_data(&indices, 4, RowOrder::BottomUp);
    let file = bmp_file(40, 6, 3, 4, 0, None, &palette, 0, &data);
    let bmp: RawBmp = RawBmp::from_slice(&file).unwrap();
    let table = bmp.color_table().unwrap();
    assert_eq!(table.len(), 16);
    let pixels = collect(bmp.pixels());
    assert_eq!(pixels.len(), 18);
    for (i, p) in pixels.iter().enumerate() {
        assert!((p.color as usize) < table.len());
        let index = indices[i / 6][i % 6] as usize;
        let [b, g, r, _] = palette[index];
        let rgb = (r as u32) << 16 | (g as u32) << 8 | b as u32;
        assert_eq!(table.get(p.color), Some(rgb));
    }
}

#[test]
fn image_data_beyond_file_is_end_of_file() {
    let mut file = checker_file(4, 4, 24, RowOrder::BottomUp);
    file.truncate(file.len() - 1);
    assert_eq!(
        RawBmp::<SliceReader>::from_slice(&file).err(),
        Some(ParseError::UnexpectedEndOfFile)
    );
}

#[test]
fn image_data_beyond_declared_size_is_end_of_file() {
    let mut file = checker_file(4, 4, 24, RowOrder::BottomUp);
    let declared = u32::from_le_bytes([file[2], file[3], file[4], file[5]]) - 1;
    file[2..6].copy_from_slice(&declared.to_le_bytes());
    let reader = SliceReader::new(&file);
    let mut header_buffer = [0u8; 128];
    assert_eq!(
        RawBmp::from_reader(&reader, &mut header_buffer).err(),
        Some(ParseError::UnexpectedEndOfFile)
    );
}

#[test]
fn chessboard_24bit_header() {
    let rows = checkerboard(8, 8, 24);
    let data = image_data(&rows, 24, RowOrder::BottomUp);
    assert_eq!(data.len(), 192);
    let file = bmp_file(40, 8, 8, 24, 0, None, &[], 68, &data);
    assert_eq!(file.len(), 314);
    let bmp: RawBmp = RawBmp::from_slice(&file).unwrap();
    assert_eq!(
        bmp.header(),
        &Header {
            file_size: 314,
            image_data_start: 122,
            bpp: Bpp::Bits24,
            image_size: Size::new(8, 8),
            image_data_len: 192,
            channel_masks: None,
            row_order: RowOrder::BottomUp,
        }
    );
    assert_eq!(bmp.image_data().len(), bmp.header().image_data_len);
    assert_eq!(collect(bmp.pixels()).len(), 8 * 8);
}

#[test]
fn one_bit_row_with_padding() {
    let data = [0b1011_0000u8, 0xff, 0xff, 0xff];
    let palette = [[0u8, 0, 0, 0], [255u8, 255, 255, 0]];
    let file = bmp_file(40, 5, 1, 1, 0, None, &palette, 0, &data);
    let bmp: RawBmp = RawBmp::from_slice(&file).unwrap();
    let table = bmp.color_table().unwrap();
    let pixels = collect(bmp.pixels());
    let colors: Vec<u32> = pixels.iter().map(|p| table.get(p.color).unwrap_or(0)).collect();
    let (white, black) = (0x00ff_ffffu32, 0u32);
    assert_eq!(colors, vec![white, black, white, white, black]);
    assert!(pixels.iter().all(|p| p.position.y == 0));
}

#[test]
fn color_table_miss_is_none() {
    let data = [0u8; 4];
    let palette = [[1u8, 2, 3, 0], [4u8, 5, 6, 0]];
    let file = bmp_file(40, 1, 1, 8, 0, None, &palette, 0, &data);
    let bmp: RawBmp = RawBmp::from_slice(&file).unwrap();
    let table = bmp.color_table().unwrap();
    assert_eq!(table.len(), 2);
    assert!(!table.is_empty());
    assert_eq!(table.get(1), Some(0x06_05_04));
    assert_eq!(table.get(2), None);
    assert_eq!(table.get(u32::MAX), None);
}

#[test]
fn masks_select_16_bit_encoding() {
    let data = image_data(&[vec![0xf800, 0x07e0]], 16, RowOrder::BottomUp);
    let m565 = Some([0xf800, 0x07e0, 0x001f, 0]);
    let file = bmp_file(56, 2, 1, 16, 0, m565, &[], 0, &data);
    let bmp: RawBmp = RawBmp::from_slice(&file).unwrap();
    assert_eq!(bmp.header().channel_masks, Some(ChannelMasks::rgb565()));
    assert_eq!(bmp.color_type(), ColorType::Rgb565);
    let colors: Vec<u32> = collect(bmp.pixels()).iter().map(|p| p.color).collect();
    assert_eq!(colors, vec![0xf800, 0x07e0]);

    let m555 = Some([0x7c00, 0x03e0, 0x001f, 0]);
    let file = bmp_file(108, 2, 1, 16, 0, m555, &[], 0, &data);
    let bmp: RawBmp = RawBmp::from_slice(&file).unwrap();
    assert_eq!(bmp.color_type(), ColorType::Rgb555);

    let m888 = Some([0xff0000, 0x00ff00, 0x0000ff, 0]);
    let file = bmp_file(124, 2, 1, 16, 0, m888, &[], 0, &data);
    assert_eq!(
        RawBmp::<SliceReader>::from_slice(&file).err(),
        Some(ParseError::UnsupportedChannelMasks)
    );
}

#[test]
fn masks_select_32_bit_encoding() {
    let data = image_data(&[vec![0x01_02_03_04]], 32, RowOrder::BottomUp);
    let m888 = Some([0xff0000, 0x00ff00, 0x0000ff, 0]);
    let file = bmp_file(56, 1, 1, 32, 0, m888, &[], 0, &data);
    let bmp: RawBmp = RawBmp::from_slice(&file).unwrap();
    assert_eq!(bmp.color_type(), ColorType::Xrgb8888);
    assert_eq!(collect(bmp.pixels())[0].color, 0x02_03_04);

    let argb = Some([0xff0000, 0x00ff00, 0x0000ff, 0xff000000]);
    let file = bmp_file(56, 1, 1, 32, 0, argb, &[], 0, &data);
    assert_eq!(
        RawBmp::<SliceReader>::from_slice(&file).err(),
        Some(ParseError::UnsupportedChannelMasks)
    );
}

#[test]
fn parse_errors() {
    let data = [0u8; 4];
    let ok = bmp_file(40, 1, 1, 24, 0, None, &[], 0, &data);
    assert!(RawBmp::<SliceReader>::from_slice(&ok).is_ok());

    let mut bad_signature = ok.clone();
    bad_signature[0] = b'X';
    assert_eq!(
        RawBmp::<SliceReader>::from_slice(&bad_signature).err(),
        Some(ParseError::InvalidFileSignature)
    );

    let core_header = bmp_file(12, 1, 1, 24, 0, None, &[], 40, &data);
    assert_eq!(
        RawBmp::<SliceReader>::from_slice(&core_header).err(),
        Some(ParseError::UnsupportedHeaderLength(12))
    );

    let two_bits = bmp_file(40, 1, 1, 2, 0, None, &[[0; 4]; 4], 0, &data);
    assert_eq!(
        RawBmp::<SliceReader>::from_slice(&two_bits).err(),
        Some(ParseError::UnsupportedBpp(2))
    );

    let rle = bmp_file(40, 1, 1, 24, 1, None, &[], 0, &data);
    assert_eq!(
        RawBmp::<SliceReader>::from_slice(&rle).err(),
        Some(ParseError::UnsupportedCompressionMethod(1))
    );

    let no_palette = bmp_file(40, 1, 1, 8, 0, None, &[], 0, &data);
    assert_eq!(
        RawBmp::<SliceReader>::from_slice(&no_palette).err(),
        Some(ParseError::MissingColorTable)
    );

    let negative_width = bmp_file(40, -1, 1, 24, 0, None, &[], 0, &data);
    assert_eq!(
        RawBmp::<SliceReader>::from_slice(&negative_width).err(),
        Some(ParseError::Header)
    );

    assert_eq!(
        RawBmp::<SliceReader>::from_slice(&ok[..30]).err(),
        Some(ParseError::UnexpectedEndOfFile)
    );
    assert_eq!(
        RawBmp::<SliceReader>::from_slice(b"B").err(),
        Some(ParseError::UnexpectedEndOfFile)
    );
}

#[test]
fn palette_must_fit_before_image_data() {
    let data = [0u8; 4];
    let palette = [[0u8; 4], [1u8; 4]];
    let mut file = bmp_file(40, 1, 1, 1, 0, None, &palette, 0, &data);
    // Declare the image data to start in the middle of the palette.
    let start = 14 + 40 + 4u32;
    file[10..14].copy_from_slice(&start.to_le_bytes());
    assert_eq!(
        RawBmp::<SliceReader>::from_slice(&file).err(),
        Some(ParseError::MissingColorTable)
    );
}

#[test]
fn header_parse_reads_prefix_only() {
    let file = checker_file(3, 2, 8, RowOrder::BottomUp);
    let (whole, _) = Header::parse(&file).unwrap();
    let (prefix, table) = Header::parse(&file[..whole.image_data_start]).unwrap();
    assert_eq!(whole, prefix);
    assert_eq!(table.unwrap().len(), 16);
    assert_eq!(whole.bytes_per_row(), 4);
    assert_eq!(whole.image_data_len, 8);
}

#[test]
fn row_length_is_padded() {
    let file = checker_file(5, 1, 1, RowOrder::BottomUp);
    let (h, _) = Header::parse(&file).unwrap();
    assert_eq!(h.bytes_per_row(), 4);
    let file = checker_file(9, 1, 4, RowOrder::BottomUp);
    let (h, _) = Header::parse(&file).unwrap();
    assert_eq!(h.bytes_per_row(), 8);
    let file = checker_file(5, 1, 24, RowOrder::BottomUp);
    let (h, _) = Header::parse(&file).unwrap();
    assert_eq!(h.bytes_per_row(), 16);
}

#[test]
fn empty_images_have_no_pixels() {
    let file = bmp_file(40, 0, 3, 24, 0, None, &[], 0, &[]);
    let bmp: RawBmp = RawBmp::from_slice(&file).unwrap();
    assert!(collect(bmp.pixels()).is_empty());
    let file = bmp_file(40, 3, 0, 24, 0, None, &[], 0, &[]);
    let bmp: RawBmp = RawBmp::from_slice(&file).unwrap();
    assert!(collect(bmp.pixels()).is_empty());
}

#[test]
fn pixels_end_and_stay_ended() {
    let file = checker_file(2, 2, 8, RowOrder::TopDown);
    let bmp: RawBmp = RawBmp::from_slice(&file).unwrap();
    let mut pixels = bmp.pixels();
    for _ in 0..4 {
        assert!(pixels.next().is_some());
    }
    assert!(pixels.next().is_none());
    assert!(pixels.next().is_none());
}

#[test]
fn raw_pixel_new_keeps_fields() {
    let p = RawPixel::new(Point::new(3, -4), 17);
    assert_eq!(p.position.x, 3);
    assert_eq!(p.position.y, -4);
    assert_eq!(p.color, 17);
    assert_eq!(ChannelMasks::rgb555().red, 0x7c00);
    assert_eq!(ChannelMasks::rgb888().blue, 0xff);
    assert_eq!(Bpp::from_bits(16), Some(Bpp::Bits16));
    assert_eq!(Bpp::from_bits(2), None);
}

#[test]
fn truncated_v4_header_is_end_of_file() {
    let palette = vec![[0u8; 4]; 256];
    let mut file = bmp_file(108, 2, 2, 8, 0, None, &palette, 0, &[0u8; 8]);
    file.truncate(100);
    assert_eq!(
        RawBmp::<SliceReader>::from_slice(&file).err(),
        Some(ParseError::UnexpectedEndOfFile)
    );
}

#[test]
fn truncated_info_header_is_end_of_file() {
    let file = bmp_file(40, 1, 1, 24, 0, None, &[], 0, &[0u8; 4]);
    assert_eq!(
        RawBmp::<SliceReader>::from_slice(&file[..40]).err(),
        Some(ParseError::UnexpectedEndOfFile)
    );
    assert_eq!(
        RawBmp::<SliceReader>::from_slice(&file[..10]).err(),
        Some(ParseError::UnexpectedEndOfFile)
    );
}

#[test]
fn bit_depth_check() {
    assert_eq!(check_bit_depth(24, Bpp::Bits24, false), Ok(()));
    assert_eq!(check_bit_depth(24, Bpp::Bits32, false), Ok(()));
    assert_eq!(check_bit_depth(16, Bpp::Bits8, true), Ok(()));
    assert_eq!(check_bit_depth(16, Bpp::Bits1, true), Ok(()));
    assert_eq!(
        check_bit_depth(16, Bpp::Bits4, true),
        Err(ParseError::MismatchedBpp(4))
    );
    assert_eq!(
        check_bit_depth(16, Bpp::Bits24, false),
        Err(ParseError::MismatchedBpp(24))
    );
    assert_eq!(
        check_bit_depth(24, Bpp::Bits8, false),
        Err(ParseError::MismatchedBpp(8))
    );
}

#[test]
fn header_buffer_holds_bytes_before_image_data() {
    let file = checker_file(3, 2, 4, RowOrder::BottomUp);
    let reader = SliceReader::new(&file);
    let mut header_buffer = [0xabu8; 200];
    let start;
    {
        let bmp = RawBmp::from_reader(&reader, &mut header_buffer).unwrap();
        start = bmp.header().image_data_start;
        assert!(bmp.image_data().is_empty());
        assert_eq!(bmp.color_table().unwrap().len(), 16);
    }
    assert_eq!(&header_buffer[..start], &file[..start]);
    assert!(header_buffer[start..].iter().all(|b| *b == 0xab));
}

#[test]
fn header_buffer_untouched_when_too_small() {
    let file = checker_file(3, 2, 4, RowOrder::BottomUp);
    let reader = SliceReader::new(&file);
    let mut header_buffer = [0xabu8; 30];
    assert!(RawBmp::from_reader(&reader, &mut header_buffer).is_err());
    assert!(header_buffer.iter().all(|b| *b == 0xab));
}

#[test]
fn streamed_source_shorter_than_declared_ends_early() {
    let mut file = checker_file(4, 3, 24, RowOrder::TopDown);
    let slice_bmp: RawBmp = RawBmp::from_slice(&file).unwrap();
    let all = collect(slice_bmp.pixels());
    let row_len = slice_bmp.header().bytes_per_row();
    file.truncate(file.len() - row_len);
    let reader = SliceReader::new(&file);
    let mut header_buffer = [0u8; 128];
    let bmp = RawBmp::from_reader(&reader, &mut header_buffer).unwrap();
    let got = collect(bmp.pixels());
    assert_eq!(got.len(), 8);
    assert_eq!(&got[..], &all[..8]);
}
