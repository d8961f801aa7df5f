//! The model's six scores, in their fixed order, as the labelled fields of a
//! response.

use vstd::prelude::*;

verus! {

/// Number of scores that the model yields per sample.
pub const SCORE_COUNT: usize = 6;

/// The name of the field that the score at `i` fills.
pub open spec fn label_of(i: int) -> &'static str {
    if i == 0 {
        "text"
    } else if i == 1 {
        "rot13"
    } else if i == 2 {
        "caesar"
    } else if i == 3 {
        "base85"
    } else if i == 4 {
        "base64"
    } else {
        "base58"
    }
}

/// The name of the field that the score at `i` fills: plain text, rot13,
/// Caesar shift, base85, base64, base58, in that order.
pub fn label(i: usize) -> (r: &'static str)
    requires
        i < SCORE_COUNT,
    ensures
        r == label_of(i as int),
{
    if i == 0 {
        "text"
    } else if i == 1 {
        "rot13"
    } else if i == 2 {
        "caesar"
    } else if i == 3 {
        "base85"
    } else if i == 4 {
        "base64"
    } else {
        "base58"
    }
}

/// One formatted percentage per class.
pub struct PredictResponse {
    pub text: String,
    pub rot13: String,
    pub caesar: String,
    pub base85: String,
    pub base64: String,
    pub base58: String,
}

impl PredictResponse {
    /// The field of the class at `i`, as `label(i)` names it.
    pub open spec fn field(&self, i: int) -> String {
        if i == 0 {
            self.text
        } else if i == 1 {
            self.rot13
        } else if i == 2 {
            self.caesar
        } else if i == 3 {
            self.base85
        } else if i == 4 {
            self.base64
        } else {
            self.base58
        }
    }

    /// Fills the fields in score order from one value per class; `None`
    /// unless exactly `SCORE_COUNT` values are given.
    pub fn from_fields(fields: Vec<String>) -> (r: Option<PredictResponse>)
        ensures
            r is Some <==> fields@.len() == SCORE_COUNT,
            r is Some ==> forall|i: int|
                0 <= i < SCORE_COUNT ==> #[trigger] r.unwrap().field(i) == fields@[i],
    {
        if fields.len() != SCORE_COUNT {
            return None;
        }
        let ghost given = fields@;
        let mut rest = fields;
        let base58 = rest.pop().unwrap();
        let base64 = rest.pop().unwrap();
        let base85 = rest.pop().unwrap();
        let caesar = rest.pop().unwrap();
        let rot13 = rest.pop().unwrap();
        let text = rest.pop().unwrap();
        let r = PredictResponse { text, rot13, caesar, base85, base64, base58 };
        assert(forall|i: int| 0 <= i < SCORE_COUNT ==> #[trigger] r.field(i) == given[i]);
        Some(r)
    }

    /// The field of the class at `i`.
    pub fn get(&self, i: usize) -> (r: &String)
        requires
            i < SCORE_COUNT,
        ensures
            *r == self.field(i as int),
    {
        if i == 0 {
            &self.text
        } else if i == 1 {
            &self.rot13
        } else if i == 2 {
            &self.caesar
        } else if i == 3 {
            &self.base85
        } else if i == 4 {
            &self.base64
        } else {
            &self.base58
        }
    }
}

} // verus!
