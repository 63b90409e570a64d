use scout::encoder::{check_weight, clamp_tokens, pixel_index, pooling, prepare_query, query_kind, Pooling, QueryError, QueryKind};
use scout::models::{EncodeStep, ModelError, ModelPaths, Models, Presence};
use scout::outliers::{enough_points, nearest_neighbors, top_outliers};
use scout::runtime::{fallback_warns, provider_plan, Accelerator, Provider};
use scout::scalar::Scalar;
use scout::scout::{BuildError, ModelSource, Scout};
use scout::settings::{executable_candidates, get_text_model_path, get_tokenizer_path, get_vision_model_path, models_dir, set_ffmpeg_path, set_model_dir, set_provider, Settings};

fn s(x: f32) -> Scalar {
    Scalar::from_bits(x.to_bits())
}

const ALL: Presence = Presence { vision: true, text: true, tokenizer: true };

#[test]
fn auto_walks_the_list_of_accelerators() {
    assert_eq!(provider_plan(Provider::Auto, false), vec![Accelerator::TensorRt, Accelerator::Cuda, Accelerator::Xnnpack]);
    assert_eq!(provider_plan(Provider::Auto, true), vec![Accelerator::TensorRt, Accelerator::Cuda, Accelerator::CoreMl, Accelerator::Xnnpack]);
}

#[test]
fn explicit_choice_is_tried_alone() {
    assert_eq!(provider_plan(Provider::Cuda, false), vec![Accelerator::Cuda]);
    assert_eq!(provider_plan(Provider::Tensorrt, true), vec![Accelerator::TensorRt]);
    assert_eq!(provider_plan(Provider::Xnnpack, false), vec![Accelerator::Xnnpack]);
    assert_eq!(provider_plan(Provider::Coreml, true), vec![Accelerator::CoreMl]);
    assert_eq!(provider_plan(Provider::Coreml, false), Vec::<Accelerator>::new());
    assert_eq!(provider_plan(Provider::Cpu, true), Vec::<Accelerator>::new());
}

#[test]
fn fall_back_from_an_explicit_choice_warns() {
    assert!(fallback_warns(Provider::Cuda));
    assert!(fallback_warns(Provider::Coreml));
    assert!(!fallback_warns(Provider::Auto));
    assert!(!fallback_warns(Provider::Cpu));
    assert_eq!(Provider::default(), Provider::Auto);
}

#[test]
fn settings_are_written_once() {
    let mut st = Settings::new();
    assert_eq!(st.provider(), Provider::Auto);
    set_model_dir(&mut st, "/models/a".to_string());
    set_model_dir(&mut st, "/models/b".to_string());
    assert_eq!(st.model_dir, Some("/models/a".to_string()));
    set_ffmpeg_path(&mut st, "/bin/ffmpeg".to_string());
    set_ffmpeg_path(&mut st, "/other".to_string());
    assert_eq!(st.ffmpeg_path, Some("/bin/ffmpeg".to_string()));
    set_provider(&mut st, Provider::Cuda);
    set_provider(&mut st, Provider::Cpu);
    assert_eq!(st.provider(), Provider::Cuda);
    assert!(!st.verbose);
}

#[test]
fn models_directory_is_the_first_that_is_known() {
    let mut st = Settings::new();
    assert_eq!(models_dir(&st, None, None), None);
    assert_eq!(models_dir(&st, None, Some("/exe/models".to_string())), Some("/exe/models".to_string()));
    assert_eq!(models_dir(&st, Some("/env".to_string()), Some("/exe/models".to_string())), Some("/env".to_string()));
    set_model_dir(&mut st, "/custom".to_string());
    assert_eq!(models_dir(&st, Some("/env".to_string()), Some("/exe/models".to_string())), Some("/custom".to_string()));
}

#[test]
fn models_are_looked_for_in_five_directories_above_the_executable() {
    assert_eq!(
        executable_candidates("/a/b/c/d/e/f/g/scout"),
        vec!["/a/b/c/d/e/f/g/models", "/a/b/c/d/e/f/models", "/a/b/c/d/e/models", "/a/b/c/d/models", "/a/b/c/models"]
    );
    assert_eq!(executable_candidates("/opt/scout/scout"), vec!["/opt/scout/models", "/opt/models", "/models"]);
    assert_eq!(executable_candidates("/scout"), vec!["/models"]);
    assert_eq!(executable_candidates("bin/scout"), vec!["bin/models", "models"]);
    assert_eq!(executable_candidates("/"), Vec::<String>::new());
}

#[test]
fn model_files_lie_in_the_models_directory() {
    assert_eq!(get_vision_model_path(Some("/m")), Some("/m/vision_model_q4f16.onnx".to_string()));
    assert_eq!(get_text_model_path(Some("/m/")), Some("/m/text_model_q4f16.onnx".to_string()));
    assert_eq!(get_tokenizer_path(Some("/m")), Some("/m/tokenizer.json".to_string()));
    assert_eq!(get_vision_model_path(None), None);
    assert_eq!(get_text_model_path(None), None);
    assert_eq!(get_tokenizer_path(None), None);
    let p = ModelPaths::in_dir("/m");
    assert_eq!(p.vision, "/m/vision_model_q4f16.onnx");
    assert_eq!(p.text, "/m/text_model_q4f16.onnx");
    assert_eq!(p.tokenizer, "/m/tokenizer.json");
}

#[test]
fn models_need_all_three_files() {
    let m = Models::from_dir("/m", ALL).ok().unwrap();
    assert_eq!(m.paths.vision, "/m/vision_model_q4f16.onnx");
    assert!(!m.vision_loaded && !m.text_loaded && !m.quiet);
    assert!(matches!(Models::from_dir("/m", Presence { vision: false, text: false, tokenizer: false }), Err(ModelError::VisionMissing(p)) if p == "/m/vision_model_q4f16.onnx"));
    assert!(matches!(Models::from_dir("/m", Presence { vision: true, text: false, tokenizer: false }), Err(ModelError::TextMissing(p)) if p == "/m/text_model_q4f16.onnx"));
    assert!(matches!(Models::from_dir("/m", Presence { vision: true, text: true, tokenizer: false }), Err(ModelError::TokenizerMissing(p)) if p == "/m/tokenizer.json"));
}

#[test]
fn models_without_a_directory_are_not_found() {
    assert!(matches!(Models::new(None, ALL), Err(ModelError::NoModelsDirectory)));
    assert!(Models::new(Some("/m"), ALL).is_ok());
    assert!(matches!(Models::new(Some("/m"), Presence { vision: true, text: false, tokenizer: true }), Err(ModelError::TextMissing(_))));
}

#[test]
fn models_at_named_paths_keep_those_paths() {
    let m = Models::with_paths("v.onnx".to_string(), "t.onnx".to_string(), "k.json".to_string(), ALL).ok().unwrap();
    assert_eq!(m.paths.vision, "v.onnx");
    assert_eq!(m.paths.text, "t.onnx");
    assert_eq!(m.paths.tokenizer, "k.json");
    assert!(matches!(
        Models::with_paths("v.onnx".to_string(), "t.onnx".to_string(), "k.json".to_string(), Presence { vision: false, text: true, tokenizer: true }),
        Err(ModelError::VisionMissing(p)) if p == "v.onnx"
    ));
}

#[test]
fn a_model_is_loaded_when_it_is_first_needed() {
    let mut m = Models::from_dir("/m", ALL).ok().unwrap();
    assert_eq!(m.image_step(), EncodeStep::Load);
    assert_eq!(m.text_step(), EncodeStep::Load);
    m.mark_vision_loaded();
    assert_eq!(m.image_step(), EncodeStep::Run);
    assert_eq!(m.text_step(), EncodeStep::Load);
    m.mark_text_loaded();
    assert_eq!(m.text_step(), EncodeStep::Run);
    assert_eq!(m.image_step(), EncodeStep::Run);
}

#[test]
fn builder_starts_with_nothing_named() {
    let b = Scout::builder();
    assert!(b.model_dir.is_none() && b.vision_path.is_none() && b.text_path.is_none() && b.tokenizer_path.is_none());
    assert!(b.provider.is_none());
    assert!(!b.verbose);
}

#[test]
fn builder_keeps_what_it_is_told() {
    let b = Scout::builder().model_dir("/m").provider(Provider::Cuda).verbose(true);
    assert_eq!(b.model_dir, Some("/m".to_string()));
    assert_eq!(b.provider, Some(Provider::Cuda));
    assert!(b.verbose);
    let scout = b.build(None, ALL).ok().unwrap();
    assert_eq!(scout.models.paths.vision, "/m/vision_model_q4f16.onnx");
    assert_eq!(scout.provider, Some(Provider::Cuda));
    assert!(scout.verbose);
    assert!(!scout.models.quiet);
}

#[test]
fn builder_is_quiet_unless_verbose() {
    let scout = Scout::builder().model_dir("/m").build(None, ALL).ok().unwrap();
    assert!(scout.models.quiet);
    assert!(!scout.verbose);
    assert!(scout.provider.is_none());
}

#[test]
fn single_files_have_to_be_named_all_three() {
    assert!(matches!(Scout::builder().text_model("t").tokenizer("k").build(None, ALL), Err(BuildError::VisionPathRequired)));
    assert!(matches!(Scout::builder().vision_model("v").tokenizer("k").build(None, ALL), Err(BuildError::TextPathRequired)));
    assert!(matches!(Scout::builder().vision_model("v").text_model("t").build(None, ALL), Err(BuildError::TokenizerPathRequired)));
    assert!(matches!(Scout::builder().tokenizer("k").model_dir("/m").build(Some("/found"), ALL), Err(BuildError::VisionPathRequired)));
}

#[test]
fn single_files_come_before_the_directory() {
    let scout = Scout::builder().model_dir("/m").vision_model("v").text_model("t").tokenizer("k").build(Some("/found"), ALL).ok().unwrap();
    assert_eq!(scout.models.paths.vision, "v");
    assert_eq!(scout.models.paths.text, "t");
    assert_eq!(scout.models.paths.tokenizer, "k");
}

#[test]
fn named_directory_comes_before_the_found_one() {
    let scout = Scout::builder().model_dir("/m").build(Some("/found"), ALL).ok().unwrap();
    assert_eq!(scout.models.paths.text, "/m/text_model_q4f16.onnx");
    let scout = Scout::builder().build(Some("/found"), ALL).ok().unwrap();
    assert_eq!(scout.models.paths.text, "/found/text_model_q4f16.onnx");
}

#[test]
fn nothing_named_and_nothing_found_is_an_error() {
    assert!(matches!(Scout::builder().build(None, ALL), Err(BuildError::ModelsNotFound)));
    assert!(matches!(Scout::builder().source(None), Err(BuildError::ModelsNotFound)));
    assert!(matches!(Scout::builder().source(Some("/f")), Ok(ModelSource::Directory(d)) if d == "/f"));
}

#[test]
fn missing_model_file_fails_the_build() {
    let r = Scout::builder().model_dir("/m").build(None, Presence { vision: true, text: true, tokenizer: false });
    assert!(matches!(r, Err(BuildError::Model(ModelError::TokenizerMissing(p))) if p == "/m/tokenizer.json"));
}

#[test]
fn query_has_its_outer_white_space_taken_off() {
    assert_eq!(prepare_query("  red car \n"), Ok("red car".to_string()));
    assert_eq!(prepare_query("cat"), Ok("cat".to_string()));
    assert_eq!(prepare_query("\u{a0}a  b\u{3000}"), Ok("a  b".to_string()));
    for q in ["x", " x", "x ", "\t a b\r\n", "\u{2003}q\u{2003}"] {
        assert_eq!(prepare_query(q), Ok(q.trim().to_string()));
    }
}

#[test]
fn empty_query_is_refused() {
    assert_eq!(prepare_query(""), Err(QueryError::EmptyQuery));
    assert_eq!(prepare_query("   "), Err(QueryError::EmptyQuery));
    assert_eq!(prepare_query("\t\n\r \u{a0}"), Err(QueryError::EmptyQuery));
}

#[test]
fn query_needs_a_text_or_an_image() {
    assert_eq!(query_kind(true, false), Ok(QueryKind::Text));
    assert_eq!(query_kind(false, true), Ok(QueryKind::Image));
    assert_eq!(query_kind(true, true), Ok(QueryKind::Blend));
    assert_eq!(query_kind(false, false), Err(QueryError::MissingInput));
}

#[test]
fn weight_lies_between_zero_and_one() {
    assert!(check_weight(s(0.0)).is_ok());
    assert!(check_weight(s(0.3)).is_ok());
    assert!(check_weight(s(1.0)).is_ok());
    assert_eq!(check_weight(s(0.3)).ok().map(|w| w.to_bits()), Some(0.3f32.to_bits()));
    assert_eq!(check_weight(s(1.5)).err(), Some(QueryError::WeightOutOfRange));
    assert_eq!(check_weight(s(-0.1)).err(), Some(QueryError::WeightOutOfRange));
    assert_eq!(check_weight(s(f32::NAN)).err(), Some(QueryError::WeightOutOfRange));
}

#[test]
fn long_queries_are_cut_to_sixty_four_tokens() {
    let long: Vec<i64> = (0..100).collect();
    let (kept, cut) = clamp_tokens(long);
    assert!(cut);
    assert_eq!(kept, (0..64).collect::<Vec<i64>>());
    let (kept, cut) = clamp_tokens((0..64).collect());
    assert!(!cut);
    assert_eq!(kept.len(), 64);
    let (kept, cut) = clamp_tokens(vec![5, 6]);
    assert!(!cut);
    assert_eq!(kept, vec![5, 6]);
}

#[test]
fn pooled_output_of_one_row_is_the_embedding() {
    assert_eq!(pooling(&[1, 1024], 1024), Pooling::Direct);
    assert_eq!(pooling(&[1, 768], 768), Pooling::Direct);
    assert_eq!(pooling(&[1, 1024], 1000), Pooling::Mismatch);
}

#[test]
fn pooled_output_of_rows_is_averaged() {
    assert_eq!(pooling(&[1, 196, 1024], 196 * 1024), Pooling::Mean { tokens: 196, dim: 1024 });
    assert_eq!(pooling(&[1, 196, 1024], 196 * 1024 - 1), Pooling::Mismatch);
    assert_eq!(pooling(&[1, i64::MAX, i64::MAX], 10), Pooling::Mismatch);
}

#[test]
fn output_of_another_shape_gives_its_leading_values() {
    assert_eq!(pooling(&[2, 1024], 2048), Pooling::Leading { count: 1024 });
    assert_eq!(pooling(&[1024], 1024), Pooling::Leading { count: 1024 });
    assert_eq!(pooling(&[], 10), Pooling::Leading { count: 10 });
    assert_eq!(pooling(&[1, 0, 1024], 5000), Pooling::Leading { count: 1024 });
    assert_eq!(pooling(&[1, -1], 5), Pooling::Leading { count: 5 });
}

#[test]
fn pixels_are_laid_out_channel_by_channel() {
    assert_eq!(pixel_index(0, 0, 0, 512), 0);
    assert_eq!(pixel_index(0, 1, 2, 512), 514);
    assert_eq!(pixel_index(1, 0, 0, 512), 512 * 512);
    assert_eq!(pixel_index(2, 511, 511, 512), 3 * 512 * 512 - 1);
}

#[test]
fn outlier_detection_needs_more_points_than_neighbours() {
    assert!(enough_points(21, 20));
    assert!(!enough_points(20, 20));
    assert!(!enough_points(0, 0));
    assert!(enough_points(1, 0));
    assert!(!enough_points(usize::MAX, usize::MAX));
}

#[test]
fn nearest_neighbours_come_by_ascending_distance() {
    let d = vec![s(0.0), s(0.5), s(0.1), s(0.9), s(0.3)];
    assert_eq!(nearest_neighbors(&d, 0, 2), vec![2, 4]);
    assert_eq!(nearest_neighbors(&d, 0, 10), vec![2, 4, 1, 3]);
    assert_eq!(nearest_neighbors(&d, 0, 0), Vec::<usize>::new());
    assert_eq!(nearest_neighbors(&d, 2, 1), vec![0]);
}

#[test]
fn a_point_is_no_neighbour_of_its_own() {
    let d = vec![s(0.2), s(0.0), s(0.0), s(0.2)];
    assert_eq!(nearest_neighbors(&d, 1, 3), vec![2, 0, 3]);
    assert_eq!(nearest_neighbors(&d, 2, 3), vec![1, 0, 3]);
    assert_eq!(nearest_neighbors(&vec![s(0.0)], 0, 3), Vec::<usize>::new());
}

#[test]
fn neighbours_agree_with_sorting_by_distance() {
    let d: Vec<f32> = (0..50).map(|i| ((i * 37) % 17) as f32 / 17.0).collect();
    let keys: Vec<Scalar> = d.iter().map(|x| s(*x)).collect();
    for own in [0usize, 7, 49] {
        let mut expected: Vec<(usize, f32)> = d.iter().copied().enumerate().filter(|(j, _)| *j != own).collect();
        expected.sort_by(|a, b| a.1.partial_cmp(&b.1).unwrap());
        expected.truncate(5);
        assert_eq!(nearest_neighbors(&keys, own, 5), expected.iter().map(|(j, _)| *j).collect::<Vec<usize>>());
    }
}

#[test]
fn top_outliers_come_by_descending_factor() {
    let f = vec![s(1.0), s(3.5), s(0.9), s(f32::NAN), s(2.0)];
    let top = top_outliers(&f, 2);
    assert_eq!(top.iter().map(|m| m.index).collect::<Vec<_>>(), vec![1, 4]);
    let all = top_outliers(&f, 10);
    assert_eq!(all.iter().map(|m| m.index).collect::<Vec<_>>(), vec![1, 4, 0, 2]);
    assert_eq!(f32::from_bits(all[0].score.to_bits()), 3.5);
}
