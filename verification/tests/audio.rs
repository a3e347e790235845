use capto::audio::{
    list_devices, next_pcm_chunk, next_pcm_tick, parse_device_id, requested_streams,
    AudioDeviceKind, AudioError, EndpointDirection, CHUNK_BYTES, MAX_QUEUED_BYTES,
};
use std::collections::VecDeque;

#[test]
fn devices_are_listed_inputs_first() {
    let inputs = vec![Some("Mic".to_string()), None];
    let outputs = vec![Some("Speakers".to_string())];
    let devices = list_devices(&inputs, Some("Mic"), &outputs, Some("Headset")).unwrap();
    assert_eq!(devices.len(), 3);
    assert_eq!(devices[0].id, "in:0:Mic");
    assert!(devices[0].is_default);
    assert_eq!(devices[1].name, "Input 1");
    assert_eq!(devices[1].id, "in:1:Input 1");
    assert_eq!(devices[2].id, "out:0:Speakers");
    assert_eq!(devices[2].kind, AudioDeviceKind::Output);
    assert!(!devices[2].is_default);
    assert!(matches!(list_devices(&[], None, &[], None), Err(AudioError::NoHost)));
}

#[test]
fn device_ids_parse() {
    let (d, id) = parse_device_id("wasapi:capture:{0.0.1}:x").unwrap_or_else(|_| panic!("ok"));
    assert_eq!(d, EndpointDirection::Capture);
    assert_eq!(id, "{0.0.1}:x");
    assert_eq!(d.kind(), AudioDeviceKind::Input);
    let (r, _) = parse_device_id("wasapi:render:spk").unwrap_or_else(|_| panic!("ok"));
    assert_eq!(r.kind(), AudioDeviceKind::Loopback);
    match parse_device_id("in:0:Mic") {
        Err(e) => assert_eq!(e.message(), "audio device error: legacy audio device is no longer valid: in:0:Mic"),
        Ok(_) => panic!("legacy id accepted"),
    }
    for bad in ["wasapi", "wasapi:loop:x", "wasapi:capture", "wasapi:capture:"] {
        match parse_device_id(bad) {
            Err(AudioError::Device(m)) => assert_eq!(m, format!("invalid WASAPI device id: {bad}")),
            _ => panic!("accepted {bad}"),
        }
    }
}

#[test]
fn only_named_streams_are_requested() {
    let r = requested_streams(Some("wasapi:capture:a"), Some(""));
    assert_eq!(r, vec![("wasapi:capture:a".to_string(), EndpointDirection::Capture)]);
    assert!(requested_streams(None, None).is_empty());
    assert_eq!(requested_streams(None, Some("x")).len(), 1);
}

#[test]
fn pcm_queue_is_trimmed_then_chunked_with_silence() {
    let mut q: VecDeque<u8> = (0..100u32).map(|i| i as u8).collect();
    let chunk = next_pcm_chunk(&mut q);
    assert_eq!(chunk.len(), CHUNK_BYTES);
    assert_eq!(&chunk[..100], &(0..100u32).map(|i| i as u8).collect::<Vec<_>>()[..]);
    assert!(chunk[100..].iter().all(|&b| b == 0));
    assert!(q.is_empty());

    let mut big: VecDeque<u8> = std::iter::repeat(1u8).take(100)
        .chain(std::iter::repeat(2u8).take(MAX_QUEUED_BYTES)).collect();
    let chunk = next_pcm_chunk(&mut big);
    assert!(chunk.iter().all(|&b| b == 2));
    assert_eq!(big.len(), MAX_QUEUED_BYTES - CHUNK_BYTES);
}

#[test]
fn pcm_pacing_snaps_forward_when_far_behind() {
    assert_eq!(next_pcm_tick(1000, 1005), 1010);
    assert_eq!(next_pcm_tick(1000, 1110), 1010);
    assert_eq!(next_pcm_tick(1000, 1111), 1121);
}
