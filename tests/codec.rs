use psd_codec::{
    cmyk_to_rgb, lab_to_rgb, decode_rle, delta_encode_row, undo_delta, BlendMode, ColorMode, Psd, PsdError, PsdLayer,
    PsdLayerType, PsdParser, PsdWriter,
};

fn be16(v: u16) -> Vec<u8> {
    v.to_be_bytes().to_vec()
}

fn be32(v: u32) -> Vec<u8> {
    v.to_be_bytes().to_vec()
}

fn header(channels: u16, height: u32, width: u32, depth: u16, mode: u16) -> Vec<u8> {
    let mut d = b"8BPS".to_vec();
    d.extend(be16(1));
    d.extend([0u8; 6]);
    d.extend(be16(channels));
    d.extend(be32(height));
    d.extend(be32(width));
    d.extend(be16(depth));
    d.extend(be16(mode));
    d
}

/// A whole file: header, colour-mode data, no resources, the layer section and the composite.
fn file(head: Vec<u8>, color_data: &[u8], section: &[u8], composite: &[u8]) -> Vec<u8> {
    let mut d = head;
    d.extend(be32(color_data.len() as u32));
    d.extend_from_slice(color_data);
    d.extend(be32(0));
    d.extend(be32(section.len() as u32));
    d.extend_from_slice(section);
    d.extend_from_slice(composite);
    d
}

fn section(count: i16, records: &[u8], data: &[u8]) -> Vec<u8> {
    let mut info = count.to_be_bytes().to_vec();
    info.extend_from_slice(records);
    info.extend_from_slice(data);
    let mut s = be32(info.len() as u32);
    s.extend(info);
    s.extend(be32(0));
    s
}

fn info_record(key: &[u8; 4], body: &[u8]) -> Vec<u8> {
    let mut r = b"8BIM".to_vec();
    r.extend_from_slice(key);
    r.extend(be32(body.len() as u32));
    r.extend_from_slice(body);
    while r.len() % 4 != 0 {
        r.push(0);
    }
    r
}

fn extra(mask: Option<[i32; 4]>, default_fill: u8, name: &str, infos: &[u8]) -> Vec<u8> {
    let mut e = Vec::new();
    match mask {
        Some(b) => {
            e.extend(be32(20));
            for v in b {
                e.extend(v.to_be_bytes());
            }
            e.push(default_fill);
            e.push(0);
            e.extend([0u8, 0u8]);
        }
        None => e.extend(be32(0)),
    }
    e.extend(be32(0));
    e.push(name.len() as u8);
    e.extend_from_slice(name.as_bytes());
    let mut used = name.len() + 1;
    while used % 4 != 0 {
        e.push(0);
        used += 1;
    }
    e.extend_from_slice(infos);
    e
}

fn record(bounds: [i32; 4], channels: &[(i16, u32)], key: &[u8; 4], opacity: u8, flags: u8, extra: &[u8]) -> Vec<u8> {
    let mut r = Vec::new();
    for v in bounds {
        r.extend(v.to_be_bytes());
    }
    r.extend(be16(channels.len() as u16));
    for (id, len) in channels {
        r.extend(id.to_be_bytes());
        r.extend(be32(*len));
    }
    r.extend_from_slice(b"8BIM");
    r.extend_from_slice(key);
    r.push(opacity);
    r.push(0);
    r.push(flags);
    r.push(0);
    r.extend(be32(extra.len() as u32));
    r.extend_from_slice(extra);
    r
}

fn raw(bytes: &[u8]) -> Vec<u8> {
    let mut c = be16(0);
    c.extend_from_slice(bytes);
    c
}

fn zlib(bytes: &[u8]) -> Vec<u8> {
    let mut enc = flate2::write::ZlibEncoder::new(Vec::new(), flate2::Compression::default());
    std::io::Write::write_all(&mut enc, bytes).unwrap();
    enc.finish().unwrap()
}

fn layer(name: &str, top: i32, left: i32, w: u32, h: u32, rgba: Vec<u8>) -> PsdLayer {
    PsdLayer {
        name: name.to_string(),
        top,
        left,
        bottom: top + h as i32,
        right: left + w as i32,
        width: w,
        height: h,
        opacity: 255,
        visible: true,
        blend_mode: BlendMode::Normal,
        rgba,
        layer_type: PsdLayerType::Normal,
        clipping: false,
        mask_info: None,
        text_data: None,
        vector_mask: None,
    }
}

fn err_of(r: Result<Psd, PsdError>) -> PsdError {
    match r {
        Ok(_) => panic!("decoding was expected to fail"),
        Err(e) => e,
    }
}

#[test]
fn bad_signature_is_rejected() {
    let mut d = header(3, 1, 1, 8, 3);
    d[0] = b'X';
    assert_eq!(err_of(Psd::from_bytes(&d)), PsdError::InvalidSignature);
    assert_eq!(err_of(Psd::from_bytes(b"8BPX")), PsdError::InvalidSignature);
    assert_eq!(err_of(Psd::from_bytes(b"abcd and then anything")), PsdError::InvalidSignature);
}

#[test]
fn short_input_is_end_of_file() {
    assert_eq!(err_of(Psd::from_bytes(b"8B")), PsdError::UnexpectedEndOfFile);
    assert_eq!(err_of(Psd::from_bytes(&header(3, 1, 1, 8, 3)[..20])), PsdError::UnexpectedEndOfFile);
    assert_eq!(err_of(Psd::from_bytes(&header(3, 1, 1, 8, 3))), PsdError::UnexpectedEndOfFile);
}

#[test]
fn header_checks() {
    let mut v3 = header(3, 1, 1, 8, 3);
    v3[5] = 3;
    assert_eq!(err_of(Psd::from_bytes(&v3)), PsdError::UnsupportedVersion);
    assert_eq!(err_of(Psd::from_bytes(&header(3, 1, 1, 8, 5))), PsdError::UnsupportedColorMode);
    assert_eq!(err_of(Psd::from_bytes(&header(3, 1, 1, 32, 3))), PsdError::UnsupportedDepth);
    assert_eq!(err_of(Psd::from_bytes(&header(3, 1, 1, 32, 6))), PsdError::UnsupportedColorMode);
}

#[test]
fn parser_decodes_minimal_document() {
    let d = file(header(3, 1, 2, 8, 3), &[], &[], &[]);
    let mut parser = PsdParser::new(&d);
    let psd = parser.parse().unwrap();
    assert_eq!(psd.width(), 2);
    assert_eq!(psd.height(), 1);
    assert_eq!(psd.color_mode(), ColorMode::Rgb);
    assert!(psd.layers().is_empty());
    assert_eq!(psd.rgba(), vec![255u8; 8]);
}

#[test]
fn rle_literal_runs() {
    for n in [1usize, 2, 77, 128] {
        let bytes: Vec<u8> = (0..n).map(|i| (i * 7 + 3) as u8).collect();
        let mut d = vec![(n - 1) as u8];
        d.extend_from_slice(&bytes);
        assert_eq!(decode_rle(&d, n).unwrap(), bytes);
    }
}

#[test]
fn rle_repeat_runs() {
    for n in [1usize, 2, 3, 128] {
        let header = (257 - n as i32).rem_euclid(256) as u8;
        assert_eq!(decode_rle(&[header, 0x5a], n).unwrap(), vec![0x5au8; n]);
    }
}

#[test]
fn rle_mixed_truncated_and_noop() {
    assert_eq!(decode_rle(&[0x80, 0xfe, 7, 1, 9, 8], 6).unwrap(), vec![7, 7, 7, 9, 8, 0]);
    assert_eq!(decode_rle(&[2, 1], 4).unwrap(), vec![1, 0, 0, 0]);
    assert_eq!(decode_rle(&[0xfd, 4], 2).unwrap(), vec![4, 4]);
    assert_eq!(decode_rle(&[], 3).unwrap(), vec![0, 0, 0]);
}

#[test]
fn delta_round_trip() {
    for len in [1usize, 2, 64] {
        let row: Vec<u8> = (0..len).map(|i| ((i * 37) % 251) as u8 ^ 0xa5).collect();
        let mut enc = delta_encode_row(&row);
        undo_delta(&mut enc, len);
        assert_eq!(enc, row);
    }
    let mut two_rows = vec![1u8, 1, 1, 10, 255, 2];
    undo_delta(&mut two_rows, 3);
    assert_eq!(two_rows, vec![1, 2, 3, 10, 9, 11]);
}

#[test]
fn cmyk_conversion() {
    assert_eq!(cmyk_to_rgb(0, 0, 0, 0), (255, 255, 255));
    assert_eq!(cmyk_to_rgb(0, 0, 0, 255), (0, 0, 0));
    assert_eq!(cmyk_to_rgb(255, 0, 128, 0), (0, 255, 127));
    assert_eq!(cmyk_to_rgb(100, 50, 0, 51), (124, 164, 204));
}

#[test]
fn negative_layer_count() {
    let ex = extra(None, 0, "L", &[]);
    let mut recs = Vec::new();
    for i in 0..3 {
        recs.extend(record([0, i, 1, i + 1], &[(0, 3)], b"norm", 255, 0, &ex));
    }
    let mut data = Vec::new();
    for v in [10u8, 20, 30] {
        data.extend(raw(&[v]));
    }
    let d = file(header(3, 1, 3, 8, 3), &[], &section(-3, &recs, &data), &[]);
    let psd = Psd::from_bytes(&d).unwrap();
    assert_eq!(psd.layers().len(), 3);
    assert_eq!(psd.layers()[2].rgba(), vec![30, 0, 0, 255]);
    assert_eq!(psd.layers()[1].layer_left(), 1);
}

#[test]
fn mask_is_aligned_by_canvas_position() {
    // Layer covers columns 0..4 of row 0; the mask covers only columns 2..3,
    // so its single sample applies to canvas column 2 and the fill elsewhere.
    let ex = extra(Some([0, 2, 1, 3]), 128, "m", &[]);
    let rec = record([0, 0, 1, 4], &[(0, 6), (-2, 3)], b"norm", 255, 0, &ex);
    let mut data = raw(&[1, 2, 3, 4]);
    data.extend(raw(&[0]));
    let d = file(header(3, 1, 4, 8, 3), &[], &section(1, &rec, &data), &[]);
    let psd = Psd::from_bytes(&d).unwrap();
    let l = &psd.layers()[0];
    let alphas: Vec<u8> = l.rgba().chunks(4).map(|p| p[3]).collect();
    assert_eq!(alphas, vec![128, 128, 0, 128]);
    let reds: Vec<u8> = l.rgba().chunks(4).map(|p| p[0]).collect();
    assert_eq!(reds, vec![1, 2, 3, 4]);
    assert_eq!(l.mask_info.unwrap().default_color, 128);
}

#[test]
fn truncated_raw_channel_is_zero_padded() {
    let ex = extra(None, 0, "t", &[]);
    let rec = record([0, 0, 2, 2], &[(0, 4), (1, 2)], b"norm", 200, 2, &ex);
    let mut data = raw(&[9, 8]);
    data.extend(raw(&[]));
    let d = file(header(3, 2, 2, 8, 3), &[], &section(1, &rec, &data), &[]);
    let psd = Psd::from_bytes(&d).unwrap();
    let l = &psd.layers()[0];
    assert_eq!(l.rgba(), vec![9, 0, 0, 255, 8, 0, 0, 255, 0, 0, 0, 255, 0, 0, 0, 255]);
    assert_eq!(l.opacity(), 200);
    assert!(!l.visible());
}

#[test]
fn unknown_info_record_is_skipped() {
    let mut luni = be32(2);
    luni.extend([0u8, b'H', 0, b'i']);
    let mut infos = info_record(b"luni", &luni);
    infos.extend(info_record(b"zzzz", &[1, 2, 3, 4, 5, 6, 7]));
    infos.extend(info_record(b"lsct", &be32(2)));
    let ex = extra(None, 0, "ascii", &infos);
    let rec = record([0, 0, 0, 0], &[], b"mul ", 255, 0, &ex);
    let d = file(header(3, 1, 1, 8, 3), &[], &section(1, &rec, &[]), &[]);
    let psd = Psd::from_bytes(&d).unwrap();
    let l = &psd.layers()[0];
    assert_eq!(l.name(), "Hi");
    assert_eq!(l.layer_type(), PsdLayerType::FolderClosed);
    assert_eq!(l.blend_mode(), "Multiply");
    assert_eq!(l.width(), 0);
}

#[test]
fn round_trip_two_layers() {
    let a: Vec<u8> = (0..64).map(|i| if i % 4 == 3 { 255 } else { (i * 3) as u8 }).collect();
    let b: Vec<u8> = (0..64).map(|i| if i % 4 == 3 { 255 } else { (250 - i) as u8 }).collect();
    let doc = Psd {
        width: 4,
        height: 4,
        layers: vec![layer("first", 0, 0, 4, 4, a.clone()), layer("second", 0, 0, 4, 4, b.clone())],
        composite_rgba: b.clone(),
        color_mode: ColorMode::Rgb,
        palette: Vec::new(),
    };
    let bytes = doc.to_bytes().unwrap();
    let back = Psd::from_bytes(&bytes).unwrap();
    assert_eq!(back.width(), 4);
    assert_eq!(back.height(), 4);
    assert_eq!(back.layers().len(), 2);
    assert_eq!(back.layers()[0].rgba(), a);
    assert_eq!(back.layers()[1].rgba(), b);
    assert_eq!(back.layers()[0].name(), "first");
    assert_eq!(back.layers()[1].name(), "second");
    assert_eq!(back.rgba(), b);
}

#[test]
fn round_trip_keeps_properties() {
    let mut l = layer("Ünïcödé name", 1, 2, 1, 1, vec![1, 2, 3, 4]);
    l.blend_mode = BlendMode::Screen;
    l.visible = false;
    l.opacity = 77;
    let mut group = layer("group", 0, 0, 0, 0, Vec::new());
    group.layer_type = PsdLayerType::FolderOpen;
    let doc = Psd {
        width: 3,
        height: 2,
        layers: vec![l, group],
        composite_rgba: vec![7u8; 24],
        color_mode: ColorMode::Rgb,
        palette: Vec::new(),
    };
    let mut writer = PsdWriter::new(&doc);
    let bytes = writer.write().unwrap();
    let back = Psd::from_bytes(&bytes).unwrap();
    let l0 = &back.layers()[0];
    assert_eq!(l0.name(), "Ünïcödé name");
    assert_eq!(l0.blend_mode(), "Screen");
    assert!(!l0.visible());
    assert_eq!(l0.opacity(), 77);
    assert_eq!(l0.layer_top(), 1);
    assert_eq!(l0.layer_left(), 2);
    assert_eq!(l0.rgba(), vec![1, 2, 3, 4]);
    assert_eq!(back.layers()[1].layer_type(), PsdLayerType::FolderOpen);
    assert_eq!(back.rgba(), vec![7, 7, 7, 255].repeat(6));
}

#[test]
fn writer_rejects_short_buffers() {
    let doc = Psd {
        width: 2,
        height: 2,
        layers: vec![layer("x", 0, 0, 2, 2, vec![0u8; 15])],
        composite_rgba: vec![0u8; 16],
        color_mode: ColorMode::Rgb,
        palette: Vec::new(),
    };
    assert_eq!(doc.to_bytes().unwrap_err(), PsdError::InvalidLayerData);
    let doc2 = Psd { width: 2, height: 2, layers: Vec::new(), composite_rgba: vec![0u8; 15], color_mode: ColorMode::Rgb, palette: Vec::new() };
    assert_eq!(doc2.to_bytes().unwrap_err(), PsdError::InvalidLayerData);
}

#[test]
fn missing_layer_signature_is_invalid() {
    let ex = extra(None, 0, "b", &[]);
    let mut rec = record([0, 0, 1, 1], &[], b"norm", 255, 0, &ex);
    rec[18] = b'X';
    let d = file(header(3, 1, 1, 8, 3), &[], &section(1, &rec, &[]), &[]);
    assert_eq!(err_of(Psd::from_bytes(&d)), PsdError::InvalidLayerData);
}

#[test]
fn zip_channels_decode() {
    let ex = extra(None, 0, "z", &[]);
    let plain = zlib(&[5, 6, 7, 8]);
    let predicted = zlib(&[5, 1, 1, 250]);
    let rec = record([0, 0, 2, 2], &[(0, plain.len() as u32 + 2), (1, predicted.len() as u32 + 2)], b"norm", 255, 0, &ex);
    let mut data = be16(2);
    data.extend(&plain);
    data.extend(be16(3));
    data.extend(&predicted);
    let d = file(header(3, 2, 2, 8, 3), &[], &section(1, &rec, &data), &[]);
    let psd = Psd::from_bytes(&d).unwrap();
    let px = psd.layers()[0].rgba();
    let reds: Vec<u8> = px.chunks(4).map(|p| p[0]).collect();
    let greens: Vec<u8> = px.chunks(4).map(|p| p[1]).collect();
    assert_eq!(reds, vec![5, 6, 7, 8]);
    assert_eq!(greens, vec![5, 6, 1, 251]);
}

#[test]
fn corrupt_zip_is_an_error() {
    let ex = extra(None, 0, "z", &[]);
    let rec = record([0, 0, 1, 1], &[(0, 6)], b"norm", 255, 0, &ex);
    let mut data = be16(2);
    data.extend([1, 2, 3, 4]);
    let d = file(header(3, 1, 1, 8, 3), &[], &section(1, &rec, &data), &[]);
    assert_eq!(err_of(Psd::from_bytes(&d)), PsdError::ZipError);
}

#[test]
fn unknown_compression_gives_zero_plane() {
    let ex = extra(None, 0, "u", &[]);
    let rec = record([0, 0, 1, 2], &[(0, 4), (1, 4)], b"norm", 255, 0, &ex);
    let mut data = be16(9);
    data.extend([1, 2]);
    data.extend(raw(&[3, 4]));
    let d = file(header(3, 1, 2, 8, 3), &[], &section(1, &rec, &data), &[]);
    let psd = Psd::from_bytes(&d).unwrap();
    assert_eq!(psd.layers()[0].rgba(), vec![0, 3, 0, 255, 0, 4, 0, 255]);
}

#[test]
fn rle_channel_and_sixteen_bit_raw() {
    let ex = extra(None, 0, "r", &[]);
    let rec = record([0, 0, 2, 2], &[(0, 2 + 4 + 4), (-1, 2 + 8)], b"norm", 255, 0, &ex);
    let mut data = be16(1);
    data.extend(be16(2));
    data.extend(be16(2));
    data.extend([0xff, 9, 0x01, 4]);
    data.extend(raw(&[1, 0, 2, 0, 3, 0, 4, 0]));
    let d = file(header(3, 2, 2, 16, 3), &[], &section(1, &rec, &data), &[]);
    let psd = Psd::from_bytes(&d).unwrap();
    let px = psd.layers()[0].rgba();
    let reds: Vec<u8> = px.chunks(4).map(|p| p[0]).collect();
    let alphas: Vec<u8> = px.chunks(4).map(|p| p[3]).collect();
    assert_eq!(reds, vec![9, 0, 4, 0]);
    assert_eq!(alphas, vec![1, 2, 3, 4]);
}

#[test]
fn cmyk_and_gray_composites() {
    let comp = {
        let mut c = be16(0);
        c.extend([0u8, 0, 0, 0, 0, 0, 0, 255]);
        c
    };
    let psd = Psd::from_bytes(&file(header(4, 1, 2, 8, 4), &[], &[], &comp)).unwrap();
    assert_eq!(psd.rgba(), vec![255, 255, 255, 255, 0, 0, 0, 255]);
    let gray = {
        let mut c = be16(0);
        c.extend([40u8, 50, 100, 200]);
        c
    };
    let psd = Psd::from_bytes(&file(header(2, 1, 2, 8, 1), &[], &[], &gray)).unwrap();
    assert_eq!(psd.rgba(), vec![40, 40, 40, 100, 50, 50, 50, 200]);
}

#[test]
fn indexed_composite_uses_palette() {
    let mut palette = vec![0u8; 768];
    palette[1] = 10;
    palette[257] = 20;
    palette[513] = 30;
    let mut comp = be16(1);
    comp.extend(be16(2));
    comp.extend([0xff, 1]);
    let psd = Psd::from_bytes(&file(header(1, 1, 2, 8, 2), &palette, &[], &comp)).unwrap();
    assert_eq!(psd.color_mode(), ColorMode::Indexed);
    assert_eq!(psd.palette.len(), 768);
    assert_eq!(psd.rgba(), vec![10, 20, 30, 255, 10, 20, 30, 255]);
}

#[test]
fn truncated_composite_is_end_of_file() {
    let mut comp = be16(0);
    comp.extend([1u8, 2, 3]);
    assert_eq!(err_of(Psd::from_bytes(&file(header(3, 1, 2, 8, 3), &[], &[], &comp))), PsdError::UnexpectedEndOfFile);
}

#[test]
fn lab_conversion() {
    let (r, g, b) = lab_to_rgb(255, 128, 128);
    assert!(r >= 254 && g >= 254 && b >= 254);
    assert_eq!(lab_to_rgb(0, 128, 128), (0, 0, 0));
    assert_eq!(lab_to_rgb(128, 200, 60), (174, 60, 237));
}

#[test]
fn lab_layer_defaults_to_neutral_axes() {
    let ex = extra(None, 0, "lab", &[]);
    let rec = record([0, 0, 1, 1], &[(0, 3)], b"norm", 255, 0, &ex);
    let data = raw(&[255]);
    let d = file(header(3, 1, 1, 8, 9), &[], &section(1, &rec, &data), &[]);
    let psd = Psd::from_bytes(&d).unwrap();
    let px = psd.layers()[0].rgba();
    let (r, g, b) = lab_to_rgb(255, 128, 128);
    assert_eq!(px, vec![r, g, b, 255]);
    assert_eq!(psd.rgba(), vec![255, 255, 255, 255]);
}

#[test]
fn vector_mask_points_are_scaled_to_canvas() {
    let mut vm = be32(0);
    let mut point = be16(6);
    for v in [1i32 << 23, 1 << 22, 0, 0, 0, 0] {
        point.extend(v.to_be_bytes());
    }
    let mut other = be16(1);
    other.extend([0u8; 24]);
    vm.extend(&other);
    vm.extend(&point);
    let infos = info_record(b"vmsk", &vm);
    let ex = extra(None, 0, "v", &infos);
    let rec = record([0, 0, 0, 0], &[], b"norm", 255, 0, &ex);
    let d = file(header(3, 10, 20, 8, 3), &[], &section(1, &rec, &[]), &[]);
    let psd = Psd::from_bytes(&d).unwrap();
    let pts = psd.layers()[0].vector_mask.clone().unwrap();
    assert_eq!(pts.len(), 1);
    assert_eq!(pts[0].y, (1i64 << 23) * 10);
    assert_eq!(pts[0].x, (1i64 << 22) * 20);
}

#[test]
fn text_layer_is_read() {
    let mut ty = vec![0u8; 48];
    ty.extend(be16(5));
    ty.extend_from_slice(b"hello");
    let infos = info_record(b"TySh", &ty);
    let ex = extra(None, 0, "t", &infos);
    let rec = record([0, 0, 0, 0], &[], b"zzzz", 255, 0, &ex);
    let d = file(header(3, 1, 1, 8, 3), &[], &section(1, &rec, &[]), &[]);
    let psd = Psd::from_bytes(&d).unwrap();
    let l = &psd.layers()[0];
    assert_eq!(l.text_data.clone().unwrap(), "hello");
    assert_eq!(l.blend_mode(), "Normal");
    assert_eq!(l.name(), "t");
}

#[test]
fn zip_composite_decodes() {
    let mut comp = be16(2);
    comp.extend(zlib(&[1, 2, 3, 4, 5, 6]));
    let psd = Psd::from_bytes(&file(header(3, 1, 2, 8, 3), &[], &[], &comp)).unwrap();
    assert_eq!(psd.rgba(), vec![1, 3, 5, 255, 2, 4, 6, 255]);
    let mut predicted = be16(3);
    predicted.extend(zlib(&[1, 1, 3, 1, 5, 1]));
    let psd = Psd::from_bytes(&file(header(3, 1, 2, 8, 3), &[], &[], &predicted)).unwrap();
    assert_eq!(psd.rgba(), vec![1, 3, 5, 255, 2, 4, 6, 255]);
}

#[test]
fn cmyk_layer_with_alpha_and_mask() {
    let ex = extra(Some([0, 1, 1, 2]), 0, "c", &[]);
    let rec = record([0, 0, 1, 2], &[(0, 4), (1, 4), (2, 4), (3, 4), (-1, 4), (-2, 3)], b"norm", 255, 0, &ex);
    let mut data = Vec::new();
    data.extend(raw(&[0, 255]));
    data.extend(raw(&[0, 0]));
    data.extend(raw(&[0, 0]));
    data.extend(raw(&[0, 0]));
    data.extend(raw(&[200, 100]));
    data.extend(raw(&[255]));
    let d = file(header(4, 1, 2, 8, 4), &[], &section(1, &rec, &data), &[]);
    let psd = Psd::from_bytes(&d).unwrap();
    assert_eq!(psd.layers()[0].rgba(), vec![255, 255, 255, 0, 0, 255, 255, 100]);
}
