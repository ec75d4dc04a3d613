use video_batch::file_mgmt::{from_regex, batch_file_path, NO_PLACEHOLDER};
use video_batch::text::{decimal_text, zero_pad, replace_text, contains, same_text};
use video_batch::algo::{
    algo_call_step, transfer_step, algo_failure, transfer_failure, select_default_transform,
    select_default_extract, DefaultTransform, DefaultExtract, RetryStep, congestion,
    deep_filter_payload, salnet_payload, NO_DEFAULT_TRANSFORM, NO_DEFAULT_EXTRACT,
};
use video_batch::json::Json;
use video_batch::preprocess::{frame_pattern, local_file_path, data_work_directory, ExecutionStyle};

#[test]
fn frame_name_is_zero_padded() {
    assert_eq!(from_regex("frame-%03d.png", 7).ok().unwrap(), "frame-007.png");
    assert_eq!(from_regex("frame-%07d.png", 1343).ok().unwrap(), "frame-0001343.png");
    assert_eq!(from_regex("f%02d.png", 12345).ok().unwrap(), "f12345.png");
}

#[test]
fn frame_name_without_placeholder_is_an_error() {
    assert_eq!(from_regex("frame.png", 7).err().unwrap().message(), NO_PLACEHOLDER);
    assert_eq!(from_regex("frame-%3d.png", 7).err().unwrap().message(), NO_PLACEHOLDER);
}

#[test]
fn batch_paths_join_directory_and_name() {
    let r = batch_file_path(&vec![1, 10], "img-%04d.jpg", "/tmp/frames").ok().unwrap();
    assert_eq!(r, vec!["/tmp/frames/img-0001.jpg".to_string(), "/tmp/frames/img-0010.jpg".to_string()]);
    assert!(batch_file_path(&vec![], "none", "d").ok().unwrap().is_empty());
    assert!(batch_file_path(&vec![1], "none", "d").is_err());
}

#[test]
fn text_helpers() {
    assert_eq!(decimal_text(0), "0");
    assert_eq!(decimal_text(340282366920938463463374607431768211455), "340282366920938463463374607431768211455");
    assert_eq!(zero_pad("42", 5), "00042");
    assert_eq!(zero_pad("12345", 3), "12345");
    assert_eq!(replace_text("aXaXa", "X", "--"), "a--a--a");
    assert_eq!(replace_text("aaa", "aa", "b"), "ba");
    assert!(contains("hello world", "o w"));
    assert!(!contains("hello", "hello!"));
    assert!(contains("", ""));
    assert!(same_text("abc", "abc"));
    assert!(!same_text("abc", "abd"));
}

#[test]
fn remote_call_retry_policy() {
    assert!(algo_call_step(0, "timeout") == RetryStep::RetryAfterMs(0));
    assert!(algo_call_step(3, "timeout") == RetryStep::RetryAfterMs(3000));
    assert!(algo_call_step(5, "timeout") == RetryStep::GiveUp);
    assert!(algo_call_step(1, "algorithm hit max number of active calls per session") == RetryStep::GiveUp);
    assert!(congestion("x: algorithm hit max number of active calls per session!"));
    assert!(!congestion("too many requests"));
    assert!(transfer_step(7) == RetryStep::RetryAfterMs(7000));
    assert!(transfer_step(8) == RetryStep::GiveUp);
    assert_eq!(algo_failure("algo://a/b", "bad").message(), "algorithm algo://a/b failed: \nbad");
    assert_eq!(
        transfer_failure(8, "download", "data://x", "gone").message(),
        "failed 8 times to download file data://x : \ngone"
    );
}

#[test]
fn default_payload_selection() {
    assert!(select_default_transform("algo://deeplearning/DeepFilter/0.6.0").ok().unwrap() == DefaultTransform::DeepFilter);
    assert!(select_default_transform("algo://deeplearning/SalNet").ok().unwrap() == DefaultTransform::Salnet);
    assert!(
        select_default_transform("algo://deeplearning/ColorfulImageColorization").ok().unwrap()
            == DefaultTransform::ColorfulColorization
    );
    assert_eq!(select_default_transform("algo://cv/CensorFace").err().unwrap().message(), NO_DEFAULT_TRANSFORM);
    assert!(select_default_extract("algo://sfw/NudityDetectioni2v").ok().unwrap() == DefaultExtract::NudityDetection);
    assert!(select_default_extract("ILLUSTRATIONTAGGER").ok().unwrap() == DefaultExtract::IllustrationTagger);
    assert_eq!(select_default_extract("other").err().unwrap().message(), NO_DEFAULT_EXTRACT);
}

#[test]
fn default_payload_shapes() {
    let ins = vec!["a".to_string()];
    let outs = vec!["b".to_string()];
    match deep_filter_payload(&ins, &outs) {
        Json::Object(m) => {
            assert_eq!(m.len(), 3);
            assert_eq!(m[0].0, "images");
            assert_eq!(m[1].0, "savePaths");
            assert_eq!(m[2].0, "filterName");
            assert!(matches!(&m[2].1, Json::Str(t) if t == "gan_vogh"));
            assert!(matches!(&m[0].1, Json::Array(v) if v.len() == 1));
        }
        _ => panic!("expected an object"),
    }
    match salnet_payload("in", "out") {
        Json::Object(m) => {
            assert_eq!(m[0].0, "image");
            assert!(matches!(&m[1].1, Json::Str(t) if t == "out"));
        }
        _ => panic!("expected an object"),
    }
}

#[test]
fn job_setup_names() {
    assert_eq!(frame_pattern("abc", true), "abc-%07d.jpg");
    assert_eq!(frame_pattern("abc", false), "abc-%07d.png");
    assert_eq!(local_file_path("/tmp/video", "data://a/b/clip.mp4"), "/tmp/video/clip.mp4");
    assert_eq!(local_file_path("/tmp/video", "clip.mp4"), "/tmp/video/clip.mp4");
    assert_eq!(local_file_path("/tmp/video", "data://a/"), "/tmp/video/");
    assert_eq!(data_work_directory(&ExecutionStyle::Algo), "data://.session");
    assert_eq!(data_work_directory(&ExecutionStyle::TestLocal), "data://.my/ProcessVideo");
}
