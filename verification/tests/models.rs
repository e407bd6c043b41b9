use zsfm::checkpoint::cast::{Cast, CastError, GGMLType};
use zsfm::checkpoint::read::MetaValue;
use zsfm::json::JsonError;
use zsfm::layout::exchange;
use zsfm::models::flowstate::{self, FlowStateConfig, FlowStateModelBuilder};
use zsfm::models::lag_llama::{
    self, build_feature_matrix, build_one_feature, context_window, history, max_lag, KvHeads, LagConfig,
};
use zsfm::models::mitra::{MitraConfig, Task};
use zsfm::models::moment_infer::{self, fit_context, forecast_patches, patchify, rel_bias, resolve, t5_relative_bucket, Bucket};
use zsfm::models::tabdpt::TabDptConfig;
use zsfm::models::tabfm::TabFMConfig;
use zsfm::models::tabfm_infer::{group_index, mask_or, table_shape, InferConfig, Shape, TabFMModelBuilder, TableError};
use zsfm::models::tabicl::TabIclConfig;
use zsfm::models::table_weights::{mitra_weights, tabdpt_weights, tabfm_weights, tabicl_weights, tabpfn_weights};
use zsfm::models::tabpfn::{decoder_plan, shared_head, TabPfnConfig};
use zsfm::models::tabular::{
    bucket, clear_row, column_cells, feature_cell, highest, impute, is_missing, kept_columns, key_mask, look_up, one_hot,
    present, read_rows, repeat_row, resize_row, select_columns, MASKED, ONE,
};
use zsfm::models::tirex::TiRexConfig;
use zsfm::models::tirex_convert::{convert, metadata, permute_bias, CkptTensor, ConvertOptions};
use zsfm::models::toto_infer::{
    self, causal_mask, optional_weights, patch_input, patches, required_weights, spread, NotWholePatches, Patches,
    TotoModelBuilder,
};

fn bits(v: &[f32]) -> Vec<u32> {
    v.iter().map(|x| x.to_bits()).collect()
}

fn values(v: &[u32]) -> Vec<f32> {
    v.iter().map(|x| f32::from_bits(*x)).collect()
}

#[test]
fn toto_config_of_json() {
    let c = toto_infer::InferConfig::from_json_value(r#"{"d_model": 1024, "use_xpos": false, "norm_eps": 0.25, "v_dim": "x"}"#)
        .unwrap();
    assert_eq!((c.d_model, c.use_xpos, f64::from_bits(c.norm_eps), c.v_dim), (1024, false, 0.25, 64));
    let d = toto_infer::InferConfig::default();
    assert_eq!(f64::from_bits(d.norm_eps), 5e-4);
    assert_eq!(f64::from_bits(d.residual_mult), 0.75);
    assert_eq!(f64::from_bits(d.residual_attn_ratio), 5.136215466577748);
    let (path, built) = TotoModelBuilder::new("toto.gguf")
        .config_json(r#"{"num_layers": 2}"#)
        .unwrap()
        .with_compute_f64(true)
        .build();
    assert_eq!(path, "toto.gguf");
    assert_eq!((built.num_layers, built.compute_f64()), (2, true));
    assert_eq!(TotoModelBuilder::new("x").config(d.with_num_heads(3)).build().1.num_heads, 3);
}

#[test]
fn a_text_that_is_no_json_is_no_config() {
    assert!(matches!(toto_infer::InferConfig::from_json_value("d_model: 1"), Err(JsonError::Malformed { .. })));
    assert!(matches!(TotoModelBuilder::new("x").config_json("{"), Err(JsonError::Malformed { .. })));
    assert!(matches!(MitraConfig::from_json(""), Err(JsonError::Malformed { .. })));
    let from_list = toto_infer::InferConfig::from_json_value("[1, 2]").unwrap();
    assert_eq!(from_list, toto_infer::InferConfig::default());
    assert_eq!(MitraConfig::from_json("null").unwrap().dim, 512);
}

#[test]
fn toto_layers_and_patches() {
    let c = toto_infer::InferConfig::default().with_layer_group_size(4);
    let marks: Vec<bool> = (0..8).map(|i| c.is_variate_layer(i)).collect();
    assert_eq!(marks, vec![false, false, false, true, false, false, false, true]);
    assert!(c.with_variate_layer_first(true).is_variate_layer(4));
    assert_eq!(patches(64, 33, 32), Ok(Patches { context: 2, forecast: 2 }));
    assert_eq!(patches(65, 33, 32), Err(NotWholePatches { ctx_len: 65, patch_size: 32 }));
    let input = patch_input(&vec![vec![7, 8]], &vec![vec![true, true]], Patches { context: 1, forecast: 1 }, 2);
    assert_eq!(input.len(), 8);
    assert_eq!(&input[..2], &[7, 8]);
    let m = values(&causal_mask(2));
    assert_eq!(m, vec![0.0, f32::NEG_INFINITY, 0.0, 0.0]);
    assert_eq!(spread(&[1, 2], 2, 5, 9), vec![1, 1, 2, 2, 9]);
    let names = required_weights(&toto_infer::InferConfig::default().with_num_layers(2));
    assert_eq!(names.len(), 12 + 8);
    assert_eq!(names[12], "blk.0.attn_qkv.weight");
    assert_eq!(optional_weights(&toto_infer::InferConfig::default().with_num_layers(1))[2], "blk.0.attn_pds.weight");
}

#[test]
fn lag_features() {
    let cfg = LagConfig { lags_seq: vec![1, 3], feature_size: 3, max_context_length: 4 };
    assert_eq!(max_lag(&cfg.lags_seq), 3);
    assert_eq!(max_lag(&[]), 0);
    let hist = history(3, &[10, 20, 30]);
    assert_eq!(hist, vec![0, 0, 0, 0, 10, 20, 30]);
    assert_eq!(context_window(7, 4), (3, 4));
    assert_eq!(context_window(3, 4), (0, 3));
    assert_eq!(build_one_feature(&hist, 7, &cfg), vec![30, 10, 0]);
    assert_eq!(build_feature_matrix(&hist, 5, 2, &cfg), vec![10, 0, 0, 20, 0, 0]);
    assert_eq!(lag_llama::weight_names(1)[5], "blk.0.attn_q.weight");
}

#[test]
fn kept_keys_and_values_grow() {
    let mut kv = KvHeads::from_flat(&[1, 2, 3, 4], &[5, 6, 7, 8], 2, 2, 1);
    kv.append(&[0, 0, 0, 0, 11, 12, 13, 14, 21, 22, 23, 24]);
    assert_eq!(kv.len(), 2);
    assert_eq!(kv.head_keys(0), &vec![1, 2, 11, 12]);
    assert_eq!(kv.head_keys(1), &vec![3, 4, 13, 14]);
    assert_eq!(kv.head_values(1), &vec![7, 8, 23, 24]);
}

fn flowstate_config() -> FlowStateConfig {
    FlowStateConfig {
        encoder_num_layers: 2,
        embedding_feature_dim: 8,
        encoder_state_dim: 4,
        n_inputs: 2,
        decoder_dim: 16,
        decoder_patch_len: 24,
        quantiles: bits(&[0.1, 0.5, 0.9]),
        basis_range: (0, 0),
        context_length: 10,
    }
}

#[test]
fn flowstate_runs_as_configured() {
    let c = flowstate::InferConfig::from_config(&flowstate_config());
    assert_eq!((c.num_layers, c.n_inputs), (2, 2));
    assert_eq!(f32::from_bits(c.eps), 1e-5);
    assert_eq!(c.median_index(None), 1);
    assert_eq!(c.median_index(Some(2)), 2);
    assert_eq!(c.context_start(12), 2);
    assert_eq!(c.context_start(7), 0);
    assert_eq!(flowstate::input(&[5, 6], 2), vec![5, 0, 6, 0]);
    assert_eq!(flowstate::column(&[1, 2, 3, 4, 5, 6], 3, 2, 1), vec![2, 4, 6]);
    assert_eq!(flowstate::weight_names(1).len(), flowstate::weight_names(0).len() + flowstate::weight_names(2).len() - flowstate::weight_names(1).len());
    let err = FlowStateModelBuilder::new("f").build().unwrap_err();
    assert!(err.message().starts_with("FlowStateModelBuilder: no config set"));
    let (path, built) = FlowStateModelBuilder::new("f").config_from(&flowstate_config()).build().unwrap();
    assert_eq!((path.as_str(), built.decoder_patch_len), ("f", 24));
}

#[test]
fn moment_contexts_and_patches() {
    assert_eq!(fit_context(&[1, 2], 4), vec![0, 0, 1, 2]);
    assert_eq!(fit_context(&[1, 2, 3], 2), vec![2, 3]);
    assert_eq!(forecast_patches(9, 8), 2);
    assert_eq!(forecast_patches(8, 8), 1);
    assert_eq!(patchify(&[1, 2, 3, 4, 5], 3, 2, 3), vec![vec![1, 2, 3], vec![3, 4, 5], vec![5, 0, 0]]);
    assert_eq!(moment_infer::weight_names(1).len(), 16);
}

#[test]
fn relative_buckets() {
    assert_eq!(t5_relative_bucket(-3, true, 32), Bucket::Near(3));
    assert_eq!(t5_relative_bucket(3, true, 32), Bucket::Near(19));
    assert_eq!(t5_relative_bucket(5, false, 32), Bucket::Near(0));
    let far = t5_relative_bucket(20, true, 32);
    assert_eq!(far, Bucket::Far { base: 16, distance: 20, max_exact: 8, buckets: 16 });
    assert_eq!(resolve(far, 2), 26);
    assert_eq!(resolve(far, 100), 31);
    assert_eq!(resolve(Bucket::Near(4), 9), 4);
    for d in 1..40 {
        let steps = if d < 8 { 0 } else { (d - 8) / 4 };
        let back = resolve(t5_relative_bucket(-(d as i64), true, 32), steps);
        assert_eq!(resolve(t5_relative_bucket(d as i64, true, 32), steps), back + 16);
        assert!(back < 16 && (d >= 8 || back == d));
    }
    let bias = rel_bias(&[1, 2, 3, 4, 5, 6], &[0, 1, 2], 2, 2);
    assert_eq!(bias, vec![3, 5, 1, 3, 4, 6, 2, 4]);
}

#[test]
fn mitra_config_of_json() {
    let r = MitraConfig::from_json(r#"{"task": "REGRESSION", "dim": 64}"#).unwrap();
    assert_eq!((r.dim, r.n_layers, r.dim_output, r.task), (64, 12, 1, Task::Regression));
    let c = MitraConfig::from_json("{}").unwrap();
    assert_eq!((c.dim, c.n_layers, c.n_heads, c.dim_output, c.task), (512, 12, 4, 10, Task::Classification));
    assert!(c.made_for(Task::Classification).is_ok());
    assert_eq!(c.made_for(Task::Regression).unwrap_err().message(), "model was loaded as a classifier");
    assert_eq!(r.made_for(Task::Classification).unwrap_err().message(), "model was loaded as a regressor");
}

#[test]
fn weights_of_the_models_of_tables() {
    let c = mitra_weights(&MitraConfig::classifier());
    let r = mitra_weights(&MitraConfig::regressor());
    assert_eq!(r.len(), c.len() + 1);
    assert_eq!(r[3], "y_embed.bias");
    assert_eq!(c[4], "blk.0.attn_row.q.weight");
    assert_eq!(tabdpt_weights(&TabDptConfig::default_v1_2()).len(), 3 + 32 * 13 + 32 * 4 + 4);
    let icl = tabicl_weights(&TabIclConfig::v2());
    assert!(icl.contains(&"col_embedder.tf_col.blocks.2.multihead_attn1.attn.ssmax_layer.query_mlp.2.bias".to_string()));
    assert!(icl.contains(&"icl_predictor.tf_icl.blocks.11.linear2.weight".to_string()));
    assert!(!icl.contains(&"row_interactor.tf_row.blocks.0.attn.ssmax_layer.base_mlp.0.weight".to_string()));
    let pfn = tabpfn_weights(&TabPfnConfig::v3_default());
    assert!(pfn.contains(&"icl_blocks.23.icl_attention.softmax_scaling_layer.base_mlp.0.weight".to_string()));
    assert_eq!(pfn[pfn.len() - 1], "many_class_decoder.softmax_scaling_layer.query_mlp.2.bias");
    let fm = tabfm_weights(&InferConfig::from_config(&tabfm_config()));
    assert!(fm.contains(&"colenc1.blk.0.mab2.ffn_down.bias".to_string()));
    assert_eq!(fm[6], "cell.y_embed.weight");
    assert_eq!(fm[fm.len() - 1], "icl.out_norm.weight");
    let regressor = TabFMConfig { is_classifier: false, ..tabfm_config() };
    assert_eq!(tabfm_weights(&InferConfig::from_config(&regressor))[6], "cell.y_embed.mlp.0.weight");
}

fn tabfm_config() -> TabFMConfig {
    TabFMConfig {
        embed_dim: 16,
        max_classes: 10,
        col_num_blocks: 1,
        col_nhead: 2,
        col_num_inds: 4,
        row_num_blocks: 1,
        row_nhead: 2,
        row_num_cls: 4,
        icl_num_blocks: 2,
        icl_nhead: 2,
        ff_factor: 2,
        feature_group_size: 3,
        is_classifier: true,
        num_freq: 32,
        decoder_hidden: None,
        norm_eps: 1e-6f64.to_bits(),
    }
}

#[test]
fn tabfm_sizes_and_builder() {
    let c = InferConfig::from_config(&tabfm_config());
    assert_eq!((c.col_dim_ff(), c.icl_dim(), c.icl_dim_ff(), c.decoder_hidden(), c.out_dim()), (32, 64, 128, 128, 10));
    let c = c.with_decoder_hidden(Some(7)).with_num_freq(5).with_norm_eps(3);
    assert_eq!((c.decoder_hidden(), c.num_freq, c.norm_eps), (7, 5, 3));
    let regressor = InferConfig::from_config(&TabFMConfig { is_classifier: false, ..tabfm_config() });
    assert_eq!(regressor.out_dim(), 1);
    let (path, built) = TabFMModelBuilder::new("t.gguf").config(c).config_from(&tabfm_config()).build().unwrap();
    assert_eq!((path.as_str(), built.num_freq), ("t.gguf", 32));
    assert!(TabFMModelBuilder::new("t").build().unwrap_err().message().starts_with("TabFMModelBuilder: no config set"));
}

#[test]
fn tabfm_batches_are_checked_in_order() {
    let x = vec![vec![vec![1, 2], vec![3, 4]]];
    let y = vec![vec![0, 1]];
    let m = vec![vec![false, true]];
    assert_eq!(table_shape(&x, &y, 1, &m, Some(9)), Ok(Shape { tables: 1, rows: 2, columns: 2, used: 2 }));
    assert_eq!(table_shape(&x, &y, 1, &m, Some(1)).unwrap().used, 1);
    assert_eq!(table_shape(&Vec::<Vec<Vec<i32>>>::new(), &y, 1, &m, None), Err(TableError::NoTable));
    assert_eq!(table_shape(&vec![Vec::<Vec<i32>>::new()], &y, 1, &m, None), Err(TableError::NoRow));
    let short = vec![x[0].clone(), vec![vec![1, 2]]];
    assert_eq!(table_shape(&short, &y, 1, &m, None), Err(TableError::RowCounts));
    assert_eq!(table_shape(&vec![vec![vec![1, 2], vec![3]]], &y, 1, &m, None), Err(TableError::RowWidths));
    assert_eq!(table_shape(&x, &Vec::<Vec<i32>>::new(), 1, &m, None), Err(TableError::LabelTables));
    assert_eq!(table_shape(&x, &vec![vec![0]], 1, &m, None), Err(TableError::LabelCounts));
    assert_eq!(table_shape(&x, &y, 3, &m, None), Err(TableError::TrainSize));
    assert_eq!(table_shape(&x, &y, 2, &vec![], None), Err(TableError::MaskTables));
    assert_eq!(table_shape(&x, &y, 2, &vec![vec![true]], None), Err(TableError::MaskWidths));
    assert_eq!(TableError::TrainSize.message(), "train_size must be <= number of rows");
    assert_eq!(mask_or(None, 2), vec![false, false]);
    assert_eq!(mask_or(Some(&vec![true]), 2), vec![true]);
}

#[test]
fn columns_in_groups() {
    assert_eq!(group_index(3, 3, 2), vec![vec![0, 1, 0], vec![1, 0, 1], vec![1, 0, 1]]);
    assert_eq!(group_index(2, 1, 0), vec![vec![0, 0]]);
    assert_eq!(feature_cell(&[10, 11, 12, 13], 1, 3, false, 0), vec![12, 13, 11]);
    assert_eq!(feature_cell(&[10, 11], 0, 1, true, 0), vec![11, 0]);
    let rows = vec![vec![1, 2], vec![3, 4]];
    assert_eq!(column_cells(&rows, 2, 2, false, 0), vec![2, 1, 4, 3, 1, 2, 3, 4]);
}

#[test]
fn labels_and_rows() {
    assert_eq!(highest(&[2, 5, 1]), Some(5));
    assert_eq!(highest(&[]), None);
    assert_eq!(one_hot(&[1, 0], 2), vec![0, ONE, ONE, 0]);
    assert_eq!(f32::from_bits(ONE), 1.0);
    assert_eq!(look_up(&[1, 2, 3, 4], 2, &[1, -1, 0, 7], 2, 0), vec![3, 4, 0, 0, 1, 2, 0, 0]);
    assert_eq!(repeat_row(&[1, 2], 2), vec![1, 2, 1, 2]);
    assert_eq!(read_rows(&[1, 2, 3, 4, 5, 6], 2, 3, 1, 2), vec![vec![2, 3], vec![5, 6]]);
    assert_eq!(select_columns(&vec![vec![1, 2, 3]], &[2, 0]), vec![vec![3, 1]]);
    assert_eq!(values(&key_mask(3, 2)), vec![0.0, 0.0, -1e9]);
    assert_eq!(f32::from_bits(MASKED), -1e9);
}

#[test]
fn cells_that_are_missing() {
    let nan = f32::NAN.to_bits();
    assert!(is_missing(nan) && !is_missing(f32::INFINITY.to_bits()));
    let rows = vec![vec![nan, 1], vec![5, 2]];
    assert_eq!(present(&rows, 0, 2), vec![5]);
    assert_eq!(impute(&[nan, 7], &[3, 4]), vec![3, 7]);
    assert_eq!(clear_row(&[nan, f32::NEG_INFINITY.to_bits(), 9]), vec![0, 0, 9]);
    assert_eq!(resize_row(&[1, 2, 3], 2, 0), vec![1, 2]);
    assert_eq!(resize_row(&[1], 3, 0), vec![1, 0, 0]);
    let zeros = vec![bits(&[0.0, 1.0, 2.0]), bits(&[-0.0, 1.0, 3.0])];
    assert_eq!(kept_columns(&zeros, 3), vec![2]);
}

#[test]
fn buckets_count_boundaries_below() {
    let b = bits(&[-1.0, 0.0, 0.0, 2.5]);
    assert_eq!(bucket(&b, (-2.0f32).to_bits()), 0);
    assert_eq!(bucket(&b, (-0.0f32).to_bits()), 1);
    assert_eq!(bucket(&b, 0.1f32.to_bits()), 3);
    assert_eq!(bucket(&b, 9.0f32.to_bits()), 4);
    assert_eq!(bucket(&b, f32::NAN.to_bits()), 0);
}

#[test]
fn limits_of_the_models_of_tables() {
    assert!(TabIclConfig::v2().knows(10).is_ok());
    assert_eq!(TabIclConfig::v2().knows(11).unwrap_err().message(), "n_classes must be <= 10");
    let p = decoder_plan(64, 64, 70);
    assert_eq!((p.width, p.chunks, p.padding, p.unseen), (65, 2, 63, 5));
    assert_eq!(decoder_plan(63, 64, 3).padding, 0);
    assert_eq!(decoder_plan(63, 64, 3).unseen, 0);
    assert_eq!(shared_head(5, 8, 1), 0);
    assert_eq!(shared_head(5, 8, 4), 2);
    let c = TabDptConfig::default_v1_2();
    assert_eq!(c.context_len(10), 74);
    assert_eq!(c.counted_len(2_000_000), 1_048_576);
}

#[test]
fn tirex_biases_and_blocks() {
    let vals: Vec<u32> = (0..12).collect();
    let once = permute_bias(&vals, 3, 2, 2);
    assert_eq!(once, vec![0, 1, 4, 5, 8, 9, 2, 3, 6, 7, 10, 11]);
    assert_eq!(permute_bias(&once, 2, 3, 2), vals);
    assert_eq!(exchange(&vals, 2, 3, 2)[2], 6);
    let config = TiRexConfig::default_from_ckpt();
    let tensor = |name: &str, mapped: Option<&str>, n: usize| CkptTensor {
        name: name.to_string(),
        mapped: mapped.map(|s| s.to_string()),
        permute: false,
        shape: vec![n as u64],
        vals: vec![0; n],
    };
    let opts = ConvertOptions { output_dtype: GGMLType::Q8_0 };
    let out = convert(&vec![tensor("a", Some("x"), 32), tensor("b", None, 1), tensor("c", Some("y"), 3)], &config, &opts).unwrap();
    assert_eq!(out.skipped, vec!["b".to_string()]);
    assert_eq!(out.fallbacks, 1);
    assert!(matches!(out.tensors[0].data, Cast::Blocks(_)));
    assert!(matches!(&out.tensors[1].data, Cast::Bytes(b) if b.len() == 12));
    let torn = CkptTensor { shape: vec![32], vals: vec![0; 31], ..tensor("d", Some("z"), 31) };
    assert_eq!(convert(&vec![torn], &config, &opts).unwrap_err(), CastError::PartialBlock { elements: 31 });
    let m = metadata(&config);
    assert_eq!(m.len(), 10);
    assert!(matches!(&m[0], (k, MetaValue::Text(v)) if k == "general.architecture" && v == "tirex"));
}
