use capto::capture::CaptureTarget;
use capto::cli::{parse_encoder, parse_format, parse_source, parse_target, region_from_flags};
use capto::encode::VideoEncoderKind;
use capto::settings::{OutputFormat, Region, VideoSourceKind};

#[test]
fn sources_formats_and_encoders_parse() {
    assert_eq!(parse_source("screen"), Ok(VideoSourceKind::Display));
    assert_eq!(parse_source("region"), Ok(VideoSourceKind::Region));
    assert_eq!(parse_source("desk"), Err("unknown source: desk".to_string()));
    assert_eq!(parse_format("m4a"), Ok(OutputFormat::AudioOnly));
    assert_eq!(parse_format("MP4"), Err("unknown format: MP4".to_string()));
    assert_eq!(parse_encoder("nvenc"), Ok(VideoEncoderKind::H264Nvenc));
    assert_eq!(parse_encoder("x265"), Ok(VideoEncoderKind::Libx265));
    assert_eq!(parse_encoder("av1"), Err("unknown encoder: av1".to_string()));
}

#[test]
fn targets_need_their_flags() {
    assert_eq!(
        parse_target("display", None, None, None, None, None, None),
        Ok(CaptureTarget::Display { id: 0 })
    );
    assert_eq!(
        parse_target("window", None, None, None, None, None, None),
        Err("--window required".to_string())
    );
    assert_eq!(
        parse_target("region", None, None, Some(1), None, Some(3), None),
        Err("--y required".to_string())
    );
    assert_eq!(
        parse_target("region", None, None, Some(1), Some(2), Some(3), Some(4)),
        Ok(CaptureTarget::Region { x: 1, y: 2, width: 3, height: 4 })
    );
    assert_eq!(
        parse_target("area", None, None, None, None, None, None),
        Err("unknown source: area".to_string())
    );
    assert_eq!(region_from_flags(Some(1), Some(2), Some(3), None), None);
    assert_eq!(
        region_from_flags(Some(1), Some(2), Some(3), Some(4)),
        Some(Region { x: 1, y: 2, width: 3, height: 4 })
    );
}
