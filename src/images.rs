//! Decisions about card images: the files that hold a card's faces, and
//! what an image response's status means.
use vstd::prelude::*;
use crate::deck::PickedCard;

verus! {

/// Why an image could not be had.
#[derive(Debug, Clone)]
pub enum ImageRequestError {
    /// A back face was asked for a card that has none.
    NotDoubleSided,
    /// The catalog answered with another status, and this body.
    OtherStatus(u16, String),
    /// Anything else.
    Other(String),
}

/// The status of an image response that carries the image.
pub const STATUS_OK: u16 = 200;

/// The status the catalog gives when asked for a face that a card lacks.
pub const STATUS_NO_SUCH_FACE: u16 = 422;

/// Whether an image response with this status carries the image.
pub fn image_status_ok(status: u16) -> (r: bool)
    ensures
        r == (status == STATUS_OK),
{
    status == STATUS_OK
}

/// The error for an image response that does not carry the image.
pub fn image_status_error(status: u16, body: String) -> (r: ImageRequestError)
    requires
        status != STATUS_OK,
    ensures
        status == STATUS_NO_SUCH_FACE ==> r is NotDoubleSided,
        status != STATUS_NO_SUCH_FACE ==> (r matches ImageRequestError::OtherStatus(c, b) && c
            == status && b == body),
{
    if status == STATUS_NO_SUCH_FACE {
        ImageRequestError::NotDoubleSided
    } else {
        ImageRequestError::OtherStatus(status, body)
    }
}

/// The name of the file that holds one face of a printing:
/// `<set>_<number>_<face>.jpg`.
pub open spec fn image_file_name(set: Seq<char>, number: Seq<char>, face: Seq<char>) -> Seq<char> {
    set + seq!['_'] + number + seq!['_'] + face + seq!['.', 'j', 'p', 'g']
}

/// Where the back image of a card comes from.
#[derive(Debug)]
pub enum BackImage {
    /// The card's own back face, in the file of this name.
    Own(String),
    /// The shared default card back.
    Default,
}

/// The image files for one card.
#[derive(Debug)]
pub struct ImagePlan {
    /// The file of the front face.
    pub front: String,
    /// Where the back comes from.
    pub back: BackImage,
}

/// The image files for a card: its front face, and its own back face when
/// it is double-sided, the default back otherwise.
pub fn image_plan(card: &PickedCard) -> (r: ImagePlan)
    ensures
        r.front@ == image_file_name(card.set_code@, card.collector_number@, seq!['f', 'r', 'o', 'n', 't']),
        card.double_sided ==> (r.back matches BackImage::Own(b) && b@ == image_file_name(
            card.set_code@,
            card.collector_number@,
            seq!['b', 'a', 'c', 'k'],
        )),
        !card.double_sided ==> r.back is Default,
{
    proof {
        reveal_strlit("_");
        reveal_strlit("_front.jpg");
        reveal_strlit("_back.jpg");
    }
    let mut front = card.set_code.clone();
    front.append("_");
    front.append(card.collector_number.as_str());
    front.append("_front.jpg");
    assert(front@ =~= image_file_name(card.set_code@, card.collector_number@, seq!['f', 'r', 'o', 'n', 't']));
    let back = if card.double_sided {
        let mut b = card.set_code.clone();
        b.append("_");
        b.append(card.collector_number.as_str());
        b.append("_back.jpg");
        assert(b@ =~= image_file_name(card.set_code@, card.collector_number@, seq!['b', 'a', 'c', 'k']));
        BackImage::Own(b)
    } else {
        BackImage::Default
    };
    ImagePlan { front, back }
}

/// A failure reported to the user.
#[derive(Debug)]
pub enum BlaError {
    Generic(String),
}

impl BlaError {
    /// The text shown for the error: `Failed BlaError - <detail>`.
    pub fn message(&self) -> (r: String)
        ensures
            r@ == "Failed BlaError - "@ + self->Generic_0@,
    {
        match self {
            BlaError::Generic(s) => {
                let mut m = String::from_str("Failed BlaError - ");
                m.append(s.as_str());
                m
            },
        }
    }
}

} // verus!
