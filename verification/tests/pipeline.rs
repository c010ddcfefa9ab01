use wolfhook::Error;
use wolfhook::asset::{Asset, Attachment, first_attachment};
use wolfhook::decode::decode_asset;
use wolfhook::dispatch::{
    DispatchAction, DispatchEvent, DispatchState, dispatch_step, status_in_success_range,
};
use wolfhook::fmt::{format_path, format_rfc3339};
use wolfhook::host::{HostUrl, resolve};
use wolfhook::message::build_message;
use wolfhook::time::Timestamp;

fn ts(year: u32, month: u32, day: u32, hour: u32, minute: u32, second: u32) -> Timestamp {
    Timestamp {
        year,
        month,
        day,
        hour,
        minute,
        second,
    }
}

fn host(scheme: &str, authority: &str, path: &str) -> HostUrl {
    HostUrl {
        scheme: scheme.to_string(),
        authority: authority.to_string(),
        path: path.to_string(),
    }
}

#[test]
fn format_path_example() {
    assert_eq!(format_path(&ts(2024, 3, 7, 9, 0, 0)), "p/2403/07/09");
}

#[test]
fn format_path_pads_small_components() {
    assert_eq!(format_path(&ts(2000, 1, 2, 3, 59, 59)), "p/0001/02/03");
}

#[test]
fn format_path_wide_year() {
    // Years at or past 2100 overflow the two-digit scheme and keep all
    // their digits, as the zero-padding formatter writes them.
    assert_eq!(format_path(&ts(2150, 12, 31, 23, 0, 0)), "p/15012/31/23");
}

#[test]
fn format_rfc3339_example() {
    assert_eq!(
        format_rfc3339(&ts(2023, 1, 1, 0, 0, 0)),
        "2023-01-01T00:00:00+00:00"
    );
}

#[test]
fn resolve_appends_to_directory_host() {
    let h = host("https", "h", "/");
    assert_eq!(
        resolve(&h, &ts(2023, 1, 1, 0, 0, 0)).unwrap(),
        "https://h/p/2301/01/00"
    );
}

#[test]
fn resolve_appends_to_deep_directory() {
    let h = host("https", "hourly.photo", "/u/wolves/");
    assert_eq!(
        resolve(&h, &ts(2024, 3, 7, 9, 0, 0)).unwrap(),
        "https://hourly.photo/u/wolves/p/2403/07/09"
    );
}

#[test]
fn resolve_drops_file_segment() {
    // A base path that does not end in a slash loses its last segment,
    // as RFC 3986 relative resolution prescribes.
    let h = host("https", "h", "/u/wolves");
    assert_eq!(
        resolve(&h, &ts(2023, 1, 1, 0, 0, 0)).unwrap(),
        "https://h/u/p/2301/01/00"
    );
}

#[test]
fn resolve_rejects_rootless_base() {
    let h = host("https", "h", "");
    assert_eq!(
        resolve(&h, &ts(2023, 1, 1, 0, 0, 0)),
        Err(Error::UrlResolution)
    );
    let h2 = host("data", "x", "text");
    assert_eq!(
        resolve(&h2, &ts(2023, 1, 1, 0, 0, 0)),
        Err(Error::UrlResolution)
    );
}

#[test]
fn decode_single_attachment_defaults_rest() {
    let asset = decode_asset("{\"attachment\":[{\"url\":\"https://x/a.png\"}]}").unwrap();
    assert_eq!(asset.attachment.len(), 1);
    assert_eq!(asset.attachment[0].url, "https://x/a.png");
    assert_eq!(asset.attachment[0].media_type, "");
    assert_eq!(asset.attachment[0].type_field, "");
    assert_eq!(asset.actor, "");
    assert_eq!(asset.content, "");
    assert_eq!(asset.published, "");
    assert!(asset.to.is_empty());
    assert!(asset.cc.is_empty());
    assert!(asset.tag.is_empty());
}

#[test]
fn decode_full_record() {
    let body = "{\"type\":\"Note\",\"actor\":\"a\",\"attributedTo\":\"b\",\
                \"attachment\":[{\"type\":\"Document\",\"mediaType\":\"image/png\",\"url\":\"u1\"},\
                {\"url\":\"u2\"}],\
                \"to\":[\"x\",\"y\"],\"cc\":[\"z\"],\"content\":\"hi\",\
                \"tag\":[{\"type\":\"Hashtag\",\"name\":\"wolf\"}],\
                \"published\":\"2023\",\"id\":\"i\",\"context\":\"c\",\"conversation\":\"v\"}";
    let asset = decode_asset(body).unwrap();
    assert_eq!(asset.type_field, "Note");
    assert_eq!(asset.actor, "a");
    assert_eq!(asset.attributed_to, "b");
    assert_eq!(asset.attachment.len(), 2);
    assert_eq!(asset.attachment[0].media_type, "image/png");
    assert_eq!(asset.attachment[1].url, "u2");
    assert_eq!(asset.to, vec!["x".to_string(), "y".to_string()]);
    assert_eq!(asset.cc, vec!["z".to_string()]);
    assert_eq!(asset.content, "hi");
    assert_eq!(asset.tag.len(), 1);
    assert_eq!(asset.tag[0].name, "wolf");
    assert_eq!(asset.published, "2023");
    assert_eq!(asset.id, "i");
    assert_eq!(asset.context, "c");
    assert_eq!(asset.conversation, "v");
}

#[test]
fn decode_ignores_unknown_members() {
    let asset = decode_asset("{\"whatever\":3,\"attachment\":[{\"url\":\"u\"}]}").unwrap();
    assert_eq!(asset.attachment[0].url, "u");
}

#[test]
fn decode_empty_object_is_default_asset() {
    let asset = decode_asset("{}").unwrap();
    assert_eq!(asset, Asset::default());
}

#[test]
fn status_range_bounds() {
    assert!(!status_in_success_range(199));
    assert!(status_in_success_range(200));
    assert!(status_in_success_range(204));
    assert!(status_in_success_range(299));
    assert!(!status_in_success_range(300));
    assert!(!status_in_success_range(302));
    assert!(!status_in_success_range(404));
    assert!(!status_in_success_range(500));
}

#[test]
fn decode_rejects_bad_json() {
    assert_eq!(decode_asset("not json"), Err(Error::Decode));
}

#[test]
fn decode_rejects_non_object() {
    assert_eq!(decode_asset("[1,2]"), Err(Error::Decode));
    assert_eq!(decode_asset("42"), Err(Error::Decode));
}

#[test]
fn decode_rejects_wrong_member_kind() {
    assert_eq!(decode_asset("{\"actor\":5}"), Err(Error::Decode));
    assert_eq!(decode_asset("{\"attachment\":\"x\"}"), Err(Error::Decode));
    assert_eq!(decode_asset("{\"to\":[1]}"), Err(Error::Decode));
}

#[test]
fn empty_attachment_list_fails_extraction() {
    let asset = decode_asset("{\"attachment\": []}").unwrap();
    assert!(asset.attachment.is_empty());
    assert_eq!(first_attachment(&asset), Err(Error::MissingAttachment));
}

#[test]
fn first_attachment_takes_sequence_order() {
    let asset = Asset {
        attachment: vec![
            Attachment {
                type_field: String::new(),
                media_type: String::new(),
                url: "first".to_string(),
            },
            Attachment {
                type_field: String::new(),
                media_type: String::new(),
                url: "second".to_string(),
            },
        ],
        ..Asset::default()
    };
    assert_eq!(first_attachment(&asset).unwrap().url, "first");
}

#[test]
fn default_asset_is_empty() {
    let a = Asset::default();
    assert_eq!(a.actor, "");
    assert!(a.attachment.is_empty());
    assert!(a.to.is_empty());
    assert_eq!(first_attachment(&a), Err(Error::MissingAttachment));
}

#[test]
fn build_message_fields() {
    let h = host("https", "h", "/");
    let att = Attachment {
        type_field: String::new(),
        media_type: String::new(),
        url: "https://cdn/img.png".to_string(),
    };
    let m = build_message(&h, &ts(2023, 1, 1, 0, 0, 0), &att).unwrap();
    assert_eq!(m.image_url, "https://cdn/img.png");
    assert_eq!(m.timestamp, "2023-01-01T00:00:00+00:00");
    assert_eq!(
        m.description,
        "[LINK](https://h/p/2301/01/00) · [PERMALINK](https://cdn/img.png)"
    );
    assert!(m.description.contains("https://h/p/2301/01/00"));
    assert!(m.description.contains("https://cdn/img.png"));
    assert_eq!(m.footer, "Made with <3 by @kaylendog · Provided by hourly.photo");
}

#[test]
fn build_message_propagates_url_failure() {
    let h = host("https", "h", "x");
    let att = Attachment {
        type_field: String::new(),
        media_type: String::new(),
        url: "u".to_string(),
    };
    assert_eq!(
        build_message(&h, &ts(2023, 1, 1, 0, 0, 0), &att),
        Err(Error::UrlResolution)
    );
}

#[test]
fn dispatch_never_fires_early() {
    let h = host("https", "h", "/");
    let scheduled = ts(2023, 1, 1, 0, 0, 0);
    let mut state = DispatchState::Waiting { scheduled };
    // However many early wake-ups arrive, the machine only asks to sleep.
    for now in [
        ts(2022, 12, 31, 23, 59, 59),
        ts(2022, 12, 31, 23, 59, 59),
        ts(2022, 6, 1, 0, 0, 0),
    ] {
        let (next, action) = dispatch_step(&h, state, DispatchEvent::Clock { now });
        assert!(matches!(next, DispatchState::Waiting { .. }));
        assert!(matches!(
            action,
            DispatchAction::Sleep { until } if until == scheduled
        ));
        state = next;
    }
    // Once the clock reaches the instant, it moves on to the fetch.
    let (next, action) = dispatch_step(&h, state, DispatchEvent::Clock { now: scheduled });
    assert!(matches!(next, DispatchState::Fetching { .. }));
    assert!(matches!(
        action,
        DispatchAction::Fetch { url } if url == "https://h/p/2301/01/00"
    ));
}

#[test]
fn dispatch_end_to_end() {
    let h = host("https", "h", "/");
    let scheduled = ts(2023, 1, 1, 0, 0, 0);
    let state = DispatchState::Waiting { scheduled };
    let (state, action) = dispatch_step(
        &h,
        state,
        DispatchEvent::Clock {
            now: ts(2023, 1, 1, 0, 0, 1),
        },
    );
    let url = match action {
        DispatchAction::Fetch { url } => url,
        other => panic!("expected a fetch, got {:?}", std::mem::discriminant(&other)),
    };
    assert_eq!(url, "https://h/p/2301/01/00");
    let body = "{\"attachment\":[{\"url\":\"https://cdn/img.png\"}]}".to_string();
    let (state, action) = dispatch_step(&h, state, DispatchEvent::Response { body: Ok(body) });
    let message = match action {
        DispatchAction::Send { message } => message,
        _ => panic!("expected a send"),
    };
    assert!(matches!(state, DispatchState::Sending { .. }));
    assert_eq!(message.image_url, "https://cdn/img.png");
    assert_eq!(message.timestamp, "2023-01-01T00:00:00+00:00");
    assert!(message.description.contains("https://h/p/2301/01/00"));
    assert!(message.description.contains("https://cdn/img.png"));
    let (state, action) = dispatch_step(&h, state, DispatchEvent::Sent { result: Ok(()) });
    assert!(matches!(
        state,
        DispatchState::Done { outcome: Ok(()) }
    ));
    assert!(matches!(
        action,
        DispatchAction::Finish { outcome: Ok(()) }
    ));
}

#[test]
fn dispatch_reports_transport_failure() {
    let h = host("https", "h", "/");
    let state = DispatchState::Fetching {
        scheduled: ts(2023, 1, 1, 0, 0, 0),
    };
    let (state, action) = dispatch_step(
        &h,
        state,
        DispatchEvent::Response {
            body: Err(Error::Network),
        },
    );
    assert!(matches!(
        state,
        DispatchState::Done { outcome: Err(Error::Network) }
    ));
    assert!(matches!(
        action,
        DispatchAction::Finish { outcome: Err(Error::Network) }
    ));
}

#[test]
fn dispatch_reports_http_status_failure() {
    let h = host("https", "h", "/");
    let state = DispatchState::Fetching {
        scheduled: ts(2023, 1, 1, 0, 0, 0),
    };
    let (_, action) = dispatch_step(
        &h,
        state,
        DispatchEvent::Response {
            body: Err(Error::HttpStatus),
        },
    );
    assert!(matches!(
        action,
        DispatchAction::Finish { outcome: Err(Error::HttpStatus) }
    ));
}

#[test]
fn dispatch_reports_missing_attachment() {
    let h = host("https", "h", "/");
    let state = DispatchState::Fetching {
        scheduled: ts(2023, 1, 1, 0, 0, 0),
    };
    let (_, action) = dispatch_step(
        &h,
        state,
        DispatchEvent::Response {
            body: Ok("{\"attachment\":[]}".to_string()),
        },
    );
    assert!(matches!(
        action,
        DispatchAction::Finish { outcome: Err(Error::MissingAttachment) }
    ));
}

#[test]
fn dispatch_reports_decode_failure() {
    let h = host("https", "h", "/");
    let state = DispatchState::Fetching {
        scheduled: ts(2023, 1, 1, 0, 0, 0),
    };
    let (_, action) = dispatch_step(
        &h,
        state,
        DispatchEvent::Response {
            body: Ok("not json".to_string()),
        },
    );
    assert!(matches!(
        action,
        DispatchAction::Finish { outcome: Err(Error::Decode) }
    ));
}

#[test]
fn dispatch_reports_bad_base_url() {
    let h = host("https", "h", "");
    let state = DispatchState::Waiting {
        scheduled: ts(2023, 1, 1, 0, 0, 0),
    };
    let (_, action) = dispatch_step(
        &h,
        state,
        DispatchEvent::Clock {
            now: ts(2023, 1, 1, 0, 0, 0),
        },
    );
    assert!(matches!(
        action,
        DispatchAction::Finish { outcome: Err(Error::UrlResolution) }
    ));
}

#[test]
fn dispatch_reports_send_failure() {
    let h = host("https", "h", "/");
    let att = Attachment {
        type_field: String::new(),
        media_type: String::new(),
        url: "u".to_string(),
    };
    let message = build_message(&h, &ts(2023, 1, 1, 0, 0, 0), &att).unwrap();
    let state = DispatchState::Sending {
        scheduled: ts(2023, 1, 1, 0, 0, 0),
        message,
    };
    let (_, action) = dispatch_step(
        &h,
        state,
        DispatchEvent::Sent {
            result: Err(Error::WebhookSend),
        },
    );
    assert!(matches!(
        action,
        DispatchAction::Finish { outcome: Err(Error::WebhookSend) }
    ));
}
