use zsfm::models::{mitra, moirai, moirai2, moment, tabdpt, tabfm, timesfm, ttm};

#[test]
fn tensor_map_top_level() {
    assert_eq!(mitra::map_tensor_name("final_layer.weight"), Some("head.weight".into()));
    assert_eq!(mitra::map_tensor_name("x_embedding.x_embedding.bias"), Some("x_embed.bias".into()));
    assert_eq!(mitra::map_tensor_name("y_embedding.y_mask.weight"), Some("y_mask.weight".into()));
}

#[test]
fn top_level() {
    assert_eq!(tabdpt::map_tensor_name("encoder.weight"), Some("encoder.weight".into()));
    assert_eq!(tabdpt::map_tensor_name("head.2.bias"), Some("head_fc2.bias".into()));
    assert_eq!(tabdpt::map_tensor_name("thinking_embed"), Some("thinking_embed".into()));
}

#[test]
fn block_attn_and_mlp() {
    assert_eq!(
        mitra::map_tensor_name("layers.0.attention1.q.weight"),
        Some("blk.0.attn_row.q.weight".into())
    );
    assert_eq!(
        mitra::map_tensor_name("layers.11.attention2.o.bias"),
        Some("blk.11.attn_feat.o.bias".into())
    );
    assert_eq!(mitra::map_tensor_name("layers.3.linear4.weight"), Some("blk.3.mlp2_fc2.weight".into()));
}

#[test]
fn unknown_returns_none() {
    assert_eq!(mitra::map_tensor_name("optimizer.state"), None);
}

#[test]
fn tensor_map_in_proj() {
    assert_eq!(moirai::map_tensor_name("in_proj.weight"), Some("in_proj.weight".into()));
}

#[test]
fn in_proj() {
    assert_eq!(
        moirai2::map_tensor_name("in_proj.hidden_layer.weight"),
        Some("in_proj.hidden.weight".into())
    );
}

#[test]
fn tensor_map_encoder_block() {
    assert_eq!(
        moirai::map_tensor_name("encoder.layers.0.self_attn.q_proj.weight"),
        Some("blk.0.attn_q.weight".into())
    );
    assert_eq!(
        moirai::map_tensor_name("encoder.layers.23.ffn.fc_gate.weight"),
        Some("blk.23.ffn_gate.weight".into())
    );
}

#[test]
fn encoder_block() {
    assert_eq!(
        moirai2::map_tensor_name("encoder.layers.0.self_attn.q_proj.weight"),
        Some("blk.0.attn_q.weight".into())
    );
    assert_eq!(
        moirai2::map_tensor_name("encoder.layers.5.ffn.fc_gate.weight"),
        Some("blk.5.ffn_gate.weight".into())
    );
}

#[test]
fn tensor_map_head() {
    assert_eq!(
        moirai::map_tensor_name("param_proj.proj.components.0.loc.weight"),
        Some("head.st_loc.weight".into())
    );
}

#[test]
fn head() {
    assert_eq!(ttm::map_tensor_name("head.base_forecast_block.weight"), Some("head.weight".into()));
}

#[test]
fn out_proj() {
    assert_eq!(
        moirai2::map_tensor_name("out_proj.output_layer.bias"),
        Some("out_proj.output.bias".into())
    );
}

#[test]
fn patch_embed() {
    assert_eq!(
        moment::map_tensor_name("patch_embedding.value_embedding.weight"),
        Some("patch_embed.weight".into())
    );
}

#[test]
fn block_attn() {
    assert_eq!(
        moment::map_tensor_name("encoder.block.0.layer.0.SelfAttention.q.weight"),
        Some("blk.0.attn_q.weight".into())
    );
    assert_eq!(
        moment::map_tensor_name("encoder.block.23.layer.1.DenseReluDense.wo.weight"),
        Some("blk.23.ffn_wo.weight".into())
    );
}

#[test]
fn rel_bias_only_in_block0() {
    assert_eq!(
        moment::map_tensor_name("encoder.block.0.layer.0.SelfAttention.relative_attention_bias.weight"),
        Some("blk.0.attn_rel_bias.weight".into())
    );
}

#[test]
fn block_and_y_encoder() {
    assert_eq!(tabdpt::map_tensor_name("transformer_encoder.0.q_proj.weight"), Some("blk.0.q_proj.weight".into()));
    assert_eq!(tabdpt::map_tensor_name("transformer_encoder.31.ff.down.weight"), Some("blk.31.ff_down.weight".into()));
    assert_eq!(tabdpt::map_tensor_name("y_encoders.5.2.weight"), Some("y_enc.5.fc2.weight".into()));
}

#[test]
fn skips_scalar_buffers() {
    assert_eq!(tabdpt::map_tensor_name("transformer_encoder.0.kappa"), None);
    assert_eq!(tabdpt::map_tensor_name("transformer_encoder.0.max_len_f"), None);
    assert_eq!(tabdpt::map_tensor_name("transformer_encoder.0.n0"), None);
}

#[test]
fn test_cls_tokens() {
    assert_eq!(tabfm::map_tensor_name("cls_tokens"), Some("cls_tokens".into()));
}

#[test]
fn test_cell_embedder_fourier() {
    assert_eq!(
        tabfm::map_tensor_name("cell_embedder.fourier_frequencies"),
        Some("cell.fourier_freq".into())
    );
    assert_eq!(
        tabfm::map_tensor_name("cell_embedder.fourier_frequencies_cat"),
        Some("cell.fourier_freq_cat".into())
    );
}

#[test]
fn test_cell_embedder_in_linear() {
    assert_eq!(
        tabfm::map_tensor_name("cell_embedder.in_linear.weight"),
        Some("cell.in_linear.weight".into())
    );
    assert_eq!(
        tabfm::map_tensor_name("cell_embedder.in_linear_cat.bias"),
        Some("cell.in_linear_cat.bias".into())
    );
}

#[test]
fn test_cell_embedder_y_embed_classification() {
    assert_eq!(
        tabfm::map_tensor_name("cell_embedder.y_embedder_lookup.weight"),
        Some("cell.y_embed.weight".into())
    );
}

#[test]
fn test_cell_embedder_y_embed_regression_mlp() {
    assert_eq!(
        tabfm::map_tensor_name("cell_embedder.y_embedder_lookup.layers.0.weight"),
        Some("cell.y_embed.mlp.0.weight".into())
    );
    assert_eq!(
        tabfm::map_tensor_name("cell_embedder.y_embedder_lookup.layers.1.bias"),
        Some("cell.y_embed.mlp.1.bias".into())
    );
}

#[test]
fn test_col_stack_ind_vectors_and_mab() {
    assert_eq!(
        tabfm::map_tensor_name("col_embedder.tf_col.blocks.0.ind_vectors"),
        Some("colenc1.blk.0.ind_vectors".into())
    );
    assert_eq!(
        tabfm::map_tensor_name("col_embedder_2.tf_col.blocks.2.mab2.attn.q_proj.weight"),
        Some("colenc2.blk.2.mab2.attn_q.weight".into())
    );
    assert_eq!(
        tabfm::map_tensor_name("col_embedder.tf_col.blocks.1.mab1.attn.per_dim_scale"),
        Some("colenc1.blk.1.mab1.per_dim_scale".into())
    );
    assert_eq!(
        tabfm::map_tensor_name("col_embedder.tf_col.blocks.0.mab1.pre_ff_ln.weight"),
        Some("colenc1.blk.0.mab1.pre_ff_norm.weight".into())
    );
    assert_eq!(
        tabfm::map_tensor_name("col_embedder.tf_col.blocks.0.mab2.linear1_gate.weight"),
        Some("colenc1.blk.0.mab2.ffn_gate.weight".into())
    );
}

#[test]
fn test_col_stack_out_projection() {
    assert_eq!(
        tabfm::map_tensor_name("col_embedder.out_w.weight"),
        Some("colenc1.out_w.weight".into())
    );
    assert_eq!(
        tabfm::map_tensor_name("col_embedder_2.ln_w.weight"),
        Some("colenc2.out_norm.weight".into())
    );
}

#[test]
fn test_row_stack_rope_and_block() {
    assert_eq!(
        tabfm::map_tensor_name("row_interactor.tf_row.rope.freqs"),
        Some("rowenc1.rope_freqs".into())
    );
    assert_eq!(
        tabfm::map_tensor_name("row_interactor_2.tf_row.blocks.2.attn.out_proj.bias"),
        Some("rowenc2.blk.2.attn_o.bias".into())
    );
    assert_eq!(
        tabfm::map_tensor_name("row_interactor.tf_row.blocks.0.post_attn_ln.weight"),
        Some("rowenc1.blk.0.post_attn_norm.weight".into())
    );
    assert_eq!(
        tabfm::map_tensor_name("row_interactor.out_ln.weight"),
        Some("rowenc1.out_norm.weight".into())
    );
}

#[test]
fn test_icl_block() {
    assert_eq!(
        tabfm::map_tensor_name("icl_predictor.tf_icl.blocks.23.linear2.weight"),
        Some("icl.blk.23.ffn_down.weight".into())
    );
    assert_eq!(
        tabfm::map_tensor_name("icl_predictor.ln.weight"),
        Some("icl.out_norm.weight".into())
    );
}

#[test]
fn test_icl_y_encoder_classification() {
    assert_eq!(
        tabfm::map_tensor_name("icl_predictor.y_encoder.projection.weight"),
        Some("icl.y_encoder.projection.weight".into())
    );
}

#[test]
fn test_icl_y_encoder_regression_and_decoder() {
    assert_eq!(
        tabfm::map_tensor_name("icl_predictor.y_encoder.layers.0.weight"),
        Some("icl.y_encoder.mlp.0.weight".into())
    );
    assert_eq!(
        tabfm::map_tensor_name("icl_predictor.decoder.layers.1.bias"),
        Some("icl.decoder.mlp.1.bias".into())
    );
}

#[test]
fn test_unrecognized_returns_none() {
    assert_eq!(tabfm::map_tensor_name("some.random.optimizer.state"), None);
}

#[test]
fn patcher() {
    assert_eq!(ttm::map_tensor_name("backbone.encoder.patcher.weight"), Some("enc.patcher.weight".into()));
    assert_eq!(ttm::map_tensor_name("backbone.encoder.patcher.bias"), Some("enc.patcher.bias".into()));
}

#[test]
fn enc_mixer() {
    assert_eq!(
        ttm::map_tensor_name("backbone.encoder.mlp_mixer_encoder.mixers.0.mixer_layers.1.patch_mixer.mlp.fc1.weight"),
        Some("enc.blk.0.layer.1.patch_fc1.weight".into())
    );
    assert_eq!(
        ttm::map_tensor_name("backbone.encoder.mlp_mixer_encoder.mixers.2.mixer_layers.0.feature_mixer.gating_block.attn_layer.bias"),
        Some("enc.blk.2.layer.0.feat_gate.bias".into())
    );
}

#[test]
fn dec_mixer() {
    assert_eq!(
        ttm::map_tensor_name("decoder.decoder_block.mixers.1.patch_mixer.norm.norm.weight"),
        Some("dec.blk.1.patch_norm.weight".into())
    );
}

#[test]
fn unknown() {
    assert_eq!(ttm::map_tensor_name("something.unknown"), None);
}

#[test]
fn timesfm_blocks_and_heads() {
    assert_eq!(timesfm::map_tensor_name("stacked_xf.19.ff0.weight"), Some("blk.19.ffn_up.weight".into()));
    assert_eq!(
        timesfm::map_tensor_name("output_projection_point.residual_layer.weight"),
        Some("out_point.skip.weight".into())
    );
    assert_eq!(timesfm::map_tensor_name("stacked_xf.x.ff0.weight"), None);
    assert_eq!(timesfm::map_tensor_name("stacked_xf."), None);
}

#[test]
fn block_numbers_are_normalised() {
    assert_eq!(mitra::map_tensor_name("layers.007.linear1.bias"), Some("blk.7.mlp1_fc1.bias".into()));
    assert_eq!(mitra::map_tensor_name("layers.+7.linear1.bias"), Some("blk.7.mlp1_fc1.bias".into()));
    assert_eq!(mitra::map_tensor_name("layers.-7.linear1.bias"), None);
    assert_eq!(mitra::map_tensor_name("layers.4294967295.linear1.bias"), Some("blk.4294967295.mlp1_fc1.bias".into()));
    assert_eq!(mitra::map_tensor_name("layers.4294967296.linear1.bias"), None);
    assert_eq!(mitra::map_tensor_name("layers.+.linear1.bias"), None);
    assert_eq!(mitra::map_tensor_name("layers..linear1.bias"), None);
}

#[test]
fn moirai_unused_components_are_skipped() {
    assert_eq!(moirai::map_tensor_name("param_proj.proj.components.1.loc.weight"), None);
    assert_eq!(moirai::map_tensor_name("param_proj.proj.components.3.scale.bias"), None);
}

#[test]
fn different_tensors_keep_different_names() {
    let maps: [(fn(&str) -> Option<String>, &str, &str); 8] = [
        (mitra::map_tensor_name, "layers.1.linear1.weight", "layers.11.linear1.weight"),
        (moirai::map_tensor_name, "encoder.layers.1.norm1.weight", "encoder.layers.1.norm2.weight"),
        (moirai2::map_tensor_name, "encoder.layers.2.norm1.weight", "encoder.norm.weight"),
        (moment::map_tensor_name, "encoder.block.0.layer.0.layer_norm.weight", "encoder.block.0.layer.1.layer_norm.weight"),
        (tabdpt::map_tensor_name, "y_encoders.0.0.weight", "y_encoders.0.2.weight"),
        (tabfm::map_tensor_name, "col_embedder.ln_w.weight", "col_embedder_2.ln_w.weight"),
        (timesfm::map_tensor_name, "stacked_xf.0.ff0.weight", "stacked_xf.0.ff1.weight"),
        (
            ttm::map_tensor_name,
            "backbone.encoder.mlp_mixer_encoder.mixers.1.mixer_layers.2.patch_mixer.mlp.fc1.weight",
            "backbone.encoder.mlp_mixer_encoder.mixers.2.mixer_layers.1.patch_mixer.mlp.fc1.weight",
        ),
    ];
    for (map, a, b) in maps {
        let (x, y) = (map(a).unwrap(), map(b).unwrap());
        assert_ne!(x, y);
    }
    assert_eq!(
        moment::map_tensor_name("encoder.block.07.layer.0.layer_norm.weight"),
        moment::map_tensor_name("encoder.block.7.layer.0.layer_norm.weight"),
    );
}
