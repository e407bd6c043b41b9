use safetensors::tensor::{serialize, TensorView};
use safetensors::Dtype;

use zsfm::checkpoint::cast::{cast_data, decode_to_f32, f32_to_bytes, pack_q8_0, u16_to_bytes, Cast, CastError, GGMLType, SrcDtype};
use zsfm::checkpoint::detect::{format_by_head, format_by_name, sniff_format, Format, NoCheckpoint, Sniffed};
use zsfm::checkpoint::elements::{decode_stored, signed32, signed64, RawTensor, Stored};
use zsfm::checkpoint::keras::{dataset_name, dataset_plan, weights_entry, DatasetPlan, DatasetType};
use zsfm::checkpoint::meta::{gguf_value_to_meta, GgufValue};
use zsfm::checkpoint::num::{f16_to_f32, f32_to_f16_bits, f64_to_f32, i64_to_f32, nat_to_f32};
use zsfm::checkpoint::onnx::{cast_note, load_onnx, parse_model, tensor_proto_to_raw, OnnxError};
use zsfm::checkpoint::pickle::{first_step, nested_key, no_tensors, second_step, Step};
use zsfm::checkpoint::proto::{ProtoError, ProtoReader, Read};
use zsfm::checkpoint::read::{merge, Checkpoint, LoadOptions, MergeError, MetaValue};
use zsfm::checkpoint::recast::{needs_fallback, recast, reversed, RecastError};
use zsfm::checkpoint::safetensors_file::{self, list_tensors, load_safetensors, StError};
use zsfm::checkpoint::shards::index_shards;
use zsfm::json::JsonError;
use zsfm::text::to_lower;

fn bytes_of(c: Cast) -> Vec<u8> {
    match c {
        Cast::Bytes(b) => b,
        Cast::Blocks(_) => panic!("expected bytes"),
    }
}

fn floats(data: &[u8]) -> Vec<f32> {
    data.chunks_exact(4).map(|c| f32::from_le_bytes([c[0], c[1], c[2], c[3]])).collect()
}

#[test]
fn f16_roundtrip_exact_values() {
    for v in [0.0f32, 1.0, -1.0, 0.5, 65504.0, -65504.0, 0.099975586] {
        assert_eq!(f32::from_bits(f16_to_f32(f32_to_f16_bits(v.to_bits()))), v, "roundtrip {v}");
    }
}

#[test]
fn halves_of_special_singles() {
    assert_eq!(f32_to_f16_bits(f32::INFINITY.to_bits()), 0x7c00);
    assert_eq!(f32_to_f16_bits(f32::NEG_INFINITY.to_bits()), 0xfc00);
    assert_eq!(f32_to_f16_bits(f32::NAN.to_bits()), 0x7e00);
    assert_eq!(f32_to_f16_bits(65536.0f32.to_bits()), 0x7c00);
    assert_eq!(f32_to_f16_bits(5.9604645e-8f32.to_bits()), 0x0001);
    assert_eq!(f32_to_f16_bits(1e-9f32.to_bits()), 0x0000);
    assert_eq!(f16_to_f32(0x0001), 5.9604645e-8f32.to_bits());
    assert_eq!(f16_to_f32(0x7c00), f32::INFINITY.to_bits());
    assert_eq!(f16_to_f32(0x8000), (-0.0f32).to_bits());
}

#[test]
fn every_half_comes_back() {
    for h in 0..=u16::MAX {
        let exp = (h >> 10) & 0x1f;
        let mantissa = h & 0x3ff;
        if exp != 31 || mantissa == 0 {
            assert_eq!(f32_to_f16_bits(f16_to_f32(h)), h);
        }
    }
}

#[test]
fn integers_and_doubles_become_singles() {
    for v in [0i64, 1, -1, 16_777_217, -16_777_217, i64::MAX, i64::MIN, 123_456_789_012] {
        assert_eq!(i64_to_f32(v), (v as f32).to_bits(), "{v}");
    }
    for v in [0u64, 3, 16_777_219, u64::MAX, 1 << 63] {
        assert_eq!(nat_to_f32(v), (v as f32).to_bits(), "{v}");
    }
    for v in [0.0f64, -0.0, 1.1, -3.3e-40, 1e-46, 1e300, -1e300, f64::INFINITY, 1.401298464324817e-45, 3.4028235677973366e38] {
        assert_eq!(f64_to_f32(v.to_bits()), (v as f32).to_bits(), "{v}");
    }
    assert!(f32::from_bits(f64_to_f32(f64::NAN.to_bits())).is_nan());
}

#[test]
fn passthrough_same_dtype() {
    let bytes: Vec<u8> = (0..16).collect();
    assert_eq!(bytes_of(cast_data(&bytes, SrcDtype::F32, GGMLType::F32).unwrap()), bytes);
    assert_eq!(bytes_of(cast_data(&bytes, SrcDtype::F16, GGMLType::F16).unwrap()), bytes);
    assert_eq!(bytes_of(cast_data(&bytes, SrcDtype::BF16, GGMLType::BF16).unwrap()), bytes);
}

#[test]
fn f32_to_bf16_truncates() {
    let v = 1.2345678f32;
    let out = bytes_of(cast_data(&v.to_le_bytes(), SrcDtype::F32, GGMLType::BF16).unwrap());
    let bits = u16::from_le_bytes([out[0], out[1]]);
    assert_eq!(bits, (v.to_bits() >> 16) as u16);
}

#[test]
fn bf16_to_f32_exact_widening() {
    let bits: u16 = 0x3FA0;
    let out = bytes_of(cast_data(&bits.to_le_bytes(), SrcDtype::BF16, GGMLType::F32).unwrap());
    let v = f32::from_le_bytes([out[0], out[1], out[2], out[3]]);
    assert_eq!(v, 1.25);
}

#[test]
fn q8_0_block_layout() {
    let vals: Vec<f32> = (0..32).map(|i| i as f32).collect();
    let scale = 31.0f32 / 127.0;
    let quants: Vec<u8> = vals.iter().map(|v| (v / scale).round() as i8 as u8).collect();
    let out = pack_q8_0(&[scale.to_bits()], &quants);
    assert_eq!(out.len(), 34);
    let d = f32::from_bits(f16_to_f32(u16::from_le_bytes([out[0], out[1]])));
    assert!((d - 31.0 / 127.0).abs() < 1e-3);
    assert_eq!(out[2] as i8, 0);
    assert_eq!(out[33] as i8, 127);
}

#[test]
fn q8_0_rejects_partial_block() {
    let bytes = f32_to_bytes(&[1.0f32.to_bits(); 31]);
    let err = cast_data(&bytes, SrcDtype::F32, GGMLType::Q8_0).unwrap_err();
    assert_eq!(err, CastError::PartialBlock { elements: 31 });
    assert_eq!(err.message(), "Q8_0 requires element count divisible by 32, got 31");
    assert!(matches!(cast_data(&f32_to_bytes(&[0; 32]), SrcDtype::F32, GGMLType::Q8_0), Ok(Cast::Blocks(v)) if v == vec![0; 32]));
}

#[test]
fn partial_elements_are_refused() {
    assert_eq!(decode_to_f32(&[0; 3], SrcDtype::F32).unwrap_err(), CastError::PartialF32);
    assert_eq!(decode_to_f32(&[0; 3], SrcDtype::F16).unwrap_err(), CastError::PartialF16);
    assert_eq!(decode_to_f32(&[0; 3], SrcDtype::BF16).unwrap_err(), CastError::PartialBF16);
    assert_eq!(CastError::PartialF32.message(), "f32 data length not divisible by 4");
    assert_eq!(CastError::PartialF16.message(), "f16 data length not divisible by 2");
    assert_eq!(CastError::PartialBF16.message(), "bf16 data length not divisible by 2");
}

#[test]
fn singles_survive_their_bytes() {
    let vals = vec![0u32, 1, 0x3f80_0000, 0xffff_ffff, 0x8000_0001];
    assert_eq!(decode_to_f32(&f32_to_bytes(&vals), SrcDtype::F32).unwrap(), vals);
    assert_eq!(u16_to_bytes(&[0x1234, 0xff00]), vec![0x34, 0x12, 0x00, 0xff]);
    let halves = u16_to_bytes(&[0x3c00, 0xc000]);
    assert_eq!(decode_to_f32(&halves, SrcDtype::F16).unwrap(), vec![1.0f32.to_bits(), (-2.0f32).to_bits()]);
}

#[test]
fn stored_elements_become_singles() {
    let vals = decode_stored(Stored::I16, &[0xff, 0xff, 0x02, 0x00]);
    assert_eq!(vals, vec![(-1.0f32).to_bits(), 2.0f32.to_bits()]);
    assert_eq!(decode_stored(Stored::U8, &[0, 255]), vec![0, 255.0f32.to_bits()]);
    assert_eq!(decode_stored(Stored::Bool, &[0, 1]), vec![0, 1.0f32.to_bits()]);
    assert_eq!(decode_stored(Stored::F64, &2.5f64.to_le_bytes()), vec![2.5f32.to_bits()]);
    assert_eq!(signed64(u64::MAX), -1);
    assert_eq!(signed32(0xffff_fffe), -2);
}

fn varint(mut v: u64, out: &mut Vec<u8>) {
    loop {
        let byte = (v & 0x7F) as u8;
        v >>= 7;
        if v == 0 {
            out.push(byte);
            break;
        }
        out.push(byte | 0x80);
    }
}

fn tag(field: u64, wire: u8, out: &mut Vec<u8>) {
    varint(field << 3 | wire as u64, out);
}

fn len_delim(field: u64, payload: &[u8], out: &mut Vec<u8>) {
    tag(field, 2, out);
    varint(payload.len() as u64, out);
    out.extend_from_slice(payload);
}

fn build_model(tensor: &[u8]) -> Vec<u8> {
    let mut graph = Vec::new();
    len_delim(5, tensor, &mut graph);
    let mut model = Vec::new();
    tag(1, 0, &mut model);
    varint(8, &mut model);
    len_delim(7, &graph, &mut model);
    model
}

#[test]
fn parses_f32_raw_data_tensor() {
    let vals = [1.5f32, -2.25, 3.0];
    let mut t = Vec::new();
    let mut dims = Vec::new();
    varint(3, &mut dims);
    len_delim(1, &dims, &mut t);
    tag(2, 0, &mut t);
    varint(1, &mut t);
    len_delim(8, b"w", &mut t);
    let raw: Vec<u8> = vals.iter().flat_map(|v| v.to_le_bytes()).collect();
    len_delim(9, &raw, &mut t);

    let model = build_model(&t);
    let init = parse_model(&model).unwrap();
    assert_eq!(init.len(), 1);
    let rt = tensor_proto_to_raw(&init[0]).unwrap();
    assert_eq!(rt.name, "w");
    assert_eq!(rt.shape, vec![3]);
    assert_eq!(rt.dtype, SrcDtype::F32);
    assert_eq!(floats(&rt.data), vals);
}

#[test]
fn parses_packed_float_data_and_int64_dims_unpacked() {
    let mut t = Vec::new();
    tag(1, 0, &mut t);
    varint(2, &mut t);
    tag(1, 0, &mut t);
    varint(2, &mut t);
    tag(2, 0, &mut t);
    varint(1, &mut t);
    len_delim(8, b"packed", &mut t);
    let mut fd = Vec::new();
    for v in [0.5f32, 1.0, 1.5, 2.0] {
        fd.extend_from_slice(&v.to_le_bytes());
    }
    len_delim(4, &fd, &mut t);

    let init = parse_model(&build_model(&t)).unwrap();
    let rt = tensor_proto_to_raw(&init[0]).unwrap();
    assert_eq!(rt.shape, vec![2, 2]);
    assert_eq!(rt.data.len(), 16);
}

#[test]
fn rejects_external_data() {
    let mut t = Vec::new();
    tag(2, 0, &mut t);
    varint(1, &mut t);
    len_delim(8, b"ext", &mut t);
    tag(14, 0, &mut t);
    varint(1, &mut t);

    let init = parse_model(&build_model(&t)).unwrap();
    let err = match tensor_proto_to_raw(&init[0]) {
        Ok(_) => panic!("expected external-data error"),
        Err(e) => e,
    };
    assert!(err.message().contains("external data"));
}

#[test]
fn onnx_names_are_read_leniently() {
    let mut t = Vec::new();
    tag(2, 0, &mut t);
    varint(7, &mut t);
    len_delim(8, &[0x62, 0xff, 0x61], &mut t);
    let mut data = Vec::new();
    varint(5, &mut data);
    varint((-3i64) as u64, &mut data);
    len_delim(7, &data, &mut t);
    let model = build_model(&t);
    let tensors = load_onnx(&model).unwrap();
    assert_eq!(tensors[0].name, "b\u{fffd}a");
    assert_eq!(floats(&tensors[0].data), vec![5.0, -3.0]);
    let init = parse_model(&model).unwrap();
    assert_eq!(cast_note(&init[0]).unwrap(), "note: tensor b\u{fffd}a: casting INT64 to F32");
}

#[test]
fn onnx_errors_in_words() {
    assert!(matches!(load_onnx(&[]), Err(OnnxError::NoInitializers)));
    assert!(matches!(load_onnx(&[0x80]), Err(OnnxError::Malformed(ProtoError::TruncatedVarint))));
    let mut t = Vec::new();
    tag(2, 0, &mut t);
    varint(8, &mut t);
    len_delim(8, b"s", &mut t);
    match load_onnx(&build_model(&t)) {
        Err(e) => assert_eq!(e.message(), "tensor s: ONNX data_type 8 not supported"),
        Ok(_) => panic!("expected an unsupported type"),
    }
}

#[test]
fn protobuf_errors() {
    assert_eq!(ProtoReader::new(&[0xff; 11]).read_varint().unwrap_err(), ProtoError::VarintTooLong);
    assert_eq!(ProtoReader::new(&[0x05, 1]).read_len_delimited().unwrap_err(), ProtoError::TruncatedBytes);
    assert_eq!(ProtoReader::new(&[1, 2, 3]).read_fixed32().unwrap_err(), ProtoError::TruncatedFixed32);
    assert_eq!(ProtoReader::new(&[1, 2, 3, 4]).read_fixed64().unwrap_err(), ProtoError::TruncatedFixed64);
    let err = match ProtoReader::new(&[]).read_value(3) {
        Err(e) => e,
        Ok(_) => panic!("expected an unsupported wire type"),
    };
    assert_eq!(err.message(), "protobuf: unsupported wire type 3");
    let mut r = ProtoReader::new(&[0x96, 0x01, 0x2a]);
    assert_eq!(r.read_varint().unwrap(), 150);
    assert!(!r.done());
    match r.read_value(0) {
        Ok(Read::Varint(v)) => assert_eq!(v, 42),
        _ => panic!("expected a varint"),
    }
    assert!(r.done());
}

#[test]
fn a_failed_read_of_fixed_width_stays_where_it_is() {
    let mut r = ProtoReader::new(&[1, 2, 3]);
    assert!(r.read_fixed32().is_err());
    assert!(r.read_fixed64().is_err());
    assert!(r.read_value(5).is_err());
    assert!(r.read_value(1).is_err());
    assert!(r.read_value(3).is_err());
    assert_eq!(r.read_varint().unwrap(), 1);
    let mut r = ProtoReader::new(&[0x05, 7]);
    assert!(r.read_len_delimited().is_err());
    assert_eq!(r.read_varint().unwrap(), 7);
}

fn test_safetensors() -> Vec<u8> {
    let a: Vec<u8> = [1.0f32, 2.0, 3.0, 4.0, 5.0, 6.0].iter().flat_map(|v| v.to_le_bytes()).collect();
    let b: Vec<u8> = (0..32).map(|i| i as f32).flat_map(|v| v.to_le_bytes()).collect();
    let views = vec![
        ("a", TensorView::new(Dtype::F32, vec![2, 3], &a).unwrap()),
        ("b", TensorView::new(Dtype::F32, vec![32], &b).unwrap()),
    ];
    serialize(views, None).unwrap()
}

fn checkpoint_of(bytes: &[u8]) -> Checkpoint {
    Checkpoint { tensors: load_safetensors(bytes).unwrap(), metadata: Vec::new() }
}

#[test]
fn safetensors_roundtrip_and_shape_order() {
    let ckpt = merge(vec![checkpoint_of(&test_safetensors())], &LoadOptions::default()).unwrap();
    assert_eq!(ckpt.tensors.len(), 2);
    let a = ckpt.tensors.iter().find(|t| t.name == "a").unwrap();
    assert_eq!(a.shape, vec![2, 3]);
    assert_eq!(a.dtype, SrcDtype::F32);
    assert_eq!(floats(&a.data), vec![1.0, 2.0, 3.0, 4.0, 5.0, 6.0]);
}

#[test]
fn duplicate_names_rejected() {
    let bytes = test_safetensors();
    let err = match merge(vec![checkpoint_of(&bytes), checkpoint_of(&bytes)], &LoadOptions::default()) {
        Ok(_) => panic!("expected duplicate-name error"),
        Err(e) => e,
    };
    assert!(err.message().contains("duplicate tensor name"));
}

#[test]
fn sniffs_safetensors_without_extension() {
    let bytes = test_safetensors();
    assert_eq!(format_by_name("noext_checkpoint", "", false, false), Ok(Format::Unnamed));
    assert_eq!(format_by_head(&bytes[..9], bytes.len() as u64), Ok(Format::Safetensors));
    assert_eq!(checkpoint_of(&bytes).tensors.len(), 2);
}

#[test]
fn safetensors_types() {
    let halves = vec![0x00u8, 0x3c];
    let longs = (-7i64).to_le_bytes().to_vec();
    let views = vec![
        ("h", TensorView::new(Dtype::F16, vec![1], &halves).unwrap()),
        ("l", TensorView::new(Dtype::I64, vec![1], &longs).unwrap()),
    ];
    let tensors = load_safetensors(&serialize(views, None).unwrap()).unwrap();
    let h = tensors.iter().find(|t| t.name == "h").unwrap();
    assert_eq!((h.dtype, h.data.clone()), (SrcDtype::F16, halves.clone()));
    let l = tensors.iter().find(|t| t.name == "l").unwrap();
    assert_eq!((l.dtype, floats(&l.data)), (SrcDtype::F32, vec![-7.0]));
    let wide = 1u64.to_le_bytes().to_vec();
    let views = vec![("w", TensorView::new(Dtype::U64, vec![1], &wide).unwrap())];
    match load_safetensors(&serialize(views, None).unwrap()) {
        Err(e) => assert_eq!(e.message(), "tensor w: unsupported dtype U64"),
        Ok(_) => panic!("expected an unsupported dtype"),
    }
    assert!(matches!(load_safetensors(&[1, 2, 3]), Err(StError::Malformed { .. })));
}

fn file_of(header: &str, data: &[u8]) -> Vec<u8> {
    let mut bytes = (header.len() as u64).to_le_bytes().to_vec();
    bytes.extend_from_slice(header.as_bytes());
    bytes.extend_from_slice(data);
    bytes
}

#[test]
fn a_file_that_declares_too_much_is_malformed() {
    let each = u64::MAX / 8;
    let members: Vec<String> = (0..8)
        .map(|i| format!(r#""t{i}":{{"dtype":"U8","shape":[{each}],"data_offsets":[{},{}]}}"#, i * each, (i + 1) * each))
        .collect();
    match load_safetensors(&file_of(&format!("{{{}}}", members.join(",")), &[])) {
        Err(e) => assert_eq!(e.message(), "deserialize safetensors: incomplete metadata, file not fully covered"),
        Ok(_) => panic!("expected a malformed file"),
    }
    let one = r#"{"t":{"dtype":"U8","shape":[2],"data_offsets":[0,2]}}"#;
    assert_eq!(floats(&load_safetensors(&file_of(one, &[3, 4])).unwrap()[0].data), vec![3.0, 4.0]);
    assert!(matches!(list_tensors(&file_of(one, &[3])), Err(StError::Malformed { .. })));
    assert!(matches!(list_tensors(&file_of("[", &[])), Err(StError::Malformed { .. })));
    assert!(matches!(list_tensors(&u64::MAX.to_le_bytes()), Err(StError::Malformed { .. })));
}

#[test]
fn a_listing_notes_what_is_cast() {
    let header = r#"{"b":{"dtype":"BOOL","shape":[1],"data_offsets":[0,1]},"h":{"dtype":"F16","shape":[1],"data_offsets":[1,3]}}"#;
    let listing = list_tensors(&file_of(header, &[1, 0, 0x3c])).unwrap();
    let mut notes: Vec<(String, Option<String>)> = listing.iter().map(|t| (t.name.clone(), safetensors_file::cast_note(t))).collect();
    notes.sort();
    assert_eq!(notes, vec![
        ("b".to_string(), Some("note: tensor b: casting BOOL to F32".to_string())),
        ("h".to_string(), None),
    ]);
}

#[test]
fn prefixes_are_stripped_before_names_are_compared() {
    let raw = |name: &str| RawTensor { name: name.to_string(), shape: vec![], dtype: SrcDtype::F32, data: vec![] };
    let part = |name: &str| Checkpoint { tensors: vec![raw(name)], metadata: vec![("k".to_string(), MetaValue::Bool(true))] };
    let opts = LoadOptions { pickle_key: None, strip_prefix: Some("model.".to_string()) };
    let merged = merge(vec![part("model.a"), part("b")], &opts).unwrap();
    assert_eq!(merged.tensors.iter().map(|t| t.name.as_str()).collect::<Vec<_>>(), vec!["a", "b"]);
    assert_eq!(merged.metadata.len(), 2);
    match merge(vec![part("model.a"), part("a")], &opts) {
        Err(MergeError::DuplicateName { name }) => assert_eq!(name, "a"),
        _ => panic!("expected a repeated name"),
    }
    match merge(vec![], &opts) {
        Err(e) => assert_eq!(e.message(), "no input files given"),
        Ok(_) => panic!("expected no inputs"),
    }
}

#[test]
fn formats_by_name() {
    assert_eq!(format_by_name("Model.SafeTensors", "SafeTensors", false, false), Ok(Format::Safetensors));
    assert_eq!(format_by_name("model.safetensors.index.json", "json", false, false), Ok(Format::SafetensorsIndex));
    assert_eq!(format_by_name("a.PT", "PT", false, false), Ok(Format::Pickle));
    assert_eq!(to_lower("AbyZ-[@9\u{c9}"), "abyz-[@9\u{c9}");
    assert_eq!(format_by_name("a.npz", "npz", false, false), Ok(Format::Npz));
    assert_eq!(format_by_name("a.keras", "keras", false, false), Ok(Format::Keras));
    assert_eq!(format_by_name("x.data-00000-of-00001", "data-00000-of-00001", false, false), Err(NoCheckpoint::TensorFlow));
    assert_eq!(format_by_name("m", "", true, true), Err(NoCheckpoint::SavedModel));
    assert_eq!(format_by_name("m", "", true, false), Err(NoCheckpoint::Directory));
    assert!(NoCheckpoint::Directory.message("d").starts_with("d is a directory"));
    assert!(NoCheckpoint::SavedModel.message("d").starts_with("d is a TensorFlow SavedModel directory. TensorFlow"));
    assert!(NoCheckpoint::TensorFlow.message("d").starts_with("d looks like a TensorFlow checkpoint file. "));
}

#[test]
fn formats_by_head() {
    assert_eq!(sniff_format(b"GGUF", 4), Sniffed::Gguf);
    assert_eq!(sniff_format(&[0x89, 0x48, 0x44, 0x46, 0x0d, 0x0a, 0x1a, 0x0a], 8), Sniffed::Hdf5);
    let head = [2u8, 0, 0, 0, 0, 0, 0, 0, 0x7b, 0x7d];
    assert_eq!(sniff_format(&head, 10), Sniffed::SafeTensors);
    assert_eq!(sniff_format(&head, 9), Sniffed::Unknown);
    assert_eq!(format_by_head(b"none", 4), Err(NoCheckpoint::Unrecognized));
    assert!(NoCheckpoint::Unrecognized.message("f").starts_with("unrecognized checkpoint format for f"));
}

#[test]
fn index_lists_its_files_once() {
    let index = r#"{"weight_map": {"x": "b.safetensors", "y": "a.safetensors", "z": "b.safetensors", "n": 3}}"#;
    assert_eq!(index_shards(index).unwrap(), vec!["a.safetensors".to_string(), "b.safetensors".to_string()]);
    assert!(matches!(index_shards("{}"), Err(JsonError::NoObject)));
    assert!(matches!(index_shards("{"), Err(JsonError::Malformed { .. })));
}

#[test]
fn recast_reverses_shapes_and_falls_back() {
    let raw = |name: &str, shape: Vec<u64>| {
        let n: u64 = shape.iter().product();
        RawTensor { name: name.to_string(), shape, dtype: SrcDtype::F32, data: vec![0; 4 * n as usize] }
    };
    let out = recast(&vec![raw("full", vec![2, 32]), raw("odd", vec![32, 3])], GGMLType::Q8_0).unwrap();
    assert_eq!(out.fallbacks, 1);
    assert_eq!(out.tensors[0].shape, vec![32, 2]);
    assert_eq!(out.tensors[0].dtype, GGMLType::Q8_0);
    assert!(matches!(&out.tensors[0].data, Cast::Blocks(v) if v.len() == 64));
    assert_eq!(out.tensors[1].dtype, GGMLType::F32);
    assert_eq!(reversed(&vec![1, 2, 3]), vec![3, 2, 1]);
    assert!(needs_fallback(GGMLType::Q8_0, &vec![33]));
    assert!(!needs_fallback(GGMLType::F16, &vec![33]));
    match recast(&vec![], GGMLType::F32) {
        Err(e) => assert_eq!(e.message("m.npz"), "checkpoint m.npz contains no tensors"),
        Ok(_) => panic!("expected no tensors"),
    }
    let torn = RawTensor { name: "t".to_string(), shape: vec![1], dtype: SrcDtype::F32, data: vec![0; 3] };
    match recast(&vec![torn], GGMLType::F16) {
        Err(RecastError::CastFailed { name, error }) => assert_eq!((name.as_str(), error), ("t", CastError::PartialF32)),
        _ => panic!("expected a failed cast"),
    }
}

#[test]
fn metadata_of_one_type_is_carried() {
    let texts = GgufValue::Array(vec![GgufValue::Text("a".to_string()), GgufValue::Text("b".to_string())]);
    assert!(matches!(gguf_value_to_meta(&texts), Some(MetaValue::ArrayText(v)) if v == vec!["a", "b"]));
    let mixed = GgufValue::Array(vec![GgufValue::U32(1), GgufValue::F32(0)]);
    assert!(gguf_value_to_meta(&mixed).is_none());
    assert!(matches!(gguf_value_to_meta(&GgufValue::Array(vec![])), Some(MetaValue::ArrayUint32(v)) if v.is_empty()));
    assert!(matches!(gguf_value_to_meta(&GgufValue::I16(-4)), Some(MetaValue::Int16(-4))));
}

#[test]
fn keras_entries_and_datasets() {
    let names = |l: &[&str]| l.iter().map(|s| s.to_string()).collect::<Vec<_>>();
    assert_eq!(weights_entry(&names(&["a.h5", "model.weights.h5"])), Some(1));
    assert_eq!(weights_entry(&names(&["config.json", "a.h5"])), Some(1));
    assert_eq!(weights_entry(&names(&["config.json"])), None);
    assert_eq!(dataset_name("//layers/dense/vars/0"), "layers.dense.vars.0");
    assert_eq!(dataset_plan(DatasetType::Float(2)), DatasetPlan::Half);
    assert_eq!(dataset_plan(DatasetType::Unsigned(8)), DatasetPlan::Carried(Stored::U64));
    assert_eq!(dataset_plan(DatasetType::NotNumeric), DatasetPlan::Skipped);
}

#[test]
fn pickles_of_training_runs_are_looked_into() {
    assert_eq!(first_step(3, false), Step::Take);
    assert_eq!(first_step(0, false), Step::LookInside);
    assert_eq!(first_step(0, true), Step::GiveUp);
    assert_eq!(second_step(Some(1)), Step::Take);
    assert_eq!(second_step(Some(0)), Step::GiveUp);
    assert_eq!(second_step(None), Step::GiveUp);
    assert_eq!(nested_key(), "state_dict");
    assert_eq!(
        no_tensors("m.pt"),
        "no tensors found in m.pt (if the checkpoint nests weights under a custom dict, pass --pickle-key <KEY>)"
    );
}
