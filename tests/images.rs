use proxy_deck::deck::PickedCard;
use proxy_deck::images::{image_plan, image_status_error, image_status_ok, BackImage, BlaError, ImageRequestError};

fn card(double_sided: bool) -> PickedCard {
    PickedCard {
        quantity: 1,
        set_code: "mh3".to_string(),
        collector_number: "246".to_string(),
        name: "Pinnacle Monk // Mystic Peak".to_string(),
        double_sided,
    }
}

#[test]
fn image_files_follow_the_printing() {
    let plan = image_plan(&card(true));
    assert_eq!(plan.front, "mh3_246_front.jpg");
    match plan.back {
        BackImage::Own(b) => assert_eq!(b, "mh3_246_back.jpg"),
        BackImage::Default => panic!("expected the card's own back"),
    }
    let plan = image_plan(&card(false));
    assert_eq!(plan.front, "mh3_246_front.jpg");
    assert!(matches!(plan.back, BackImage::Default));
}

#[test]
fn image_statuses() {
    assert!(image_status_ok(200));
    assert!(!image_status_ok(422));
    assert!(matches!(image_status_error(422, String::new()), ImageRequestError::NotDoubleSided));
    match image_status_error(500, "oops".to_string()) {
        ImageRequestError::OtherStatus(code, body) => {
            assert_eq!(code, 500);
            assert_eq!(body, "oops");
        }
        other => panic!("unexpected {:?}", other),
    }
}

#[test]
fn error_message() {
    assert_eq!(BlaError::Generic("not found".to_string()).message(), "Failed BlaError - not found");
}
