//! The scanners there are, by name

use crate::text::same_text;
use vstd::prelude::*;

verus! {

/// A scanner of the family
#[derive(Debug, Clone, Copy, PartialEq, Eq, Structural)]
pub enum Model {
    Ls9000,
    Ls8000,
    Ls5000,
    Ls4000,
    Ls50,
    Ls40,
}

impl Model {
    /// The product name a unit answers INQUIRY with
    pub open spec fn product(self) -> Seq<char> {
        match self {
            Model::Ls9000 => "LS-9000 ED"@,
            Model::Ls8000 => "LS-8000 ED"@,
            Model::Ls5000 => "LS-5000 ED"@,
            Model::Ls4000 => "LS-4000 ED"@,
            Model::Ls50 => "LS-50 ED"@,
            Model::Ls40 => "LS-40 ED"@,
        }
    }

    /// The model a product name belongs to
    pub open spec fn of_product(product: Seq<char>) -> Option<Model> {
        if product == Model::Ls9000.product() {
            Some(Model::Ls9000)
        } else if product == Model::Ls8000.product() {
            Some(Model::Ls8000)
        } else if product == Model::Ls5000.product() {
            Some(Model::Ls5000)
        } else if product == Model::Ls4000.product() {
            Some(Model::Ls4000)
        } else if product == Model::Ls50.product() {
            Some(Model::Ls50)
        } else if product == Model::Ls40.product() {
            Some(Model::Ls40)
        } else {
            None
        }
    }

    /// What to show a person
    pub fn name(self) -> (r: &'static str)
        ensures
            r@ == self.product(),
    {
        match self {
            Model::Ls9000 => "LS-9000 ED",
            Model::Ls8000 => "LS-8000 ED",
            Model::Ls5000 => "LS-5000 ED",
            Model::Ls4000 => "LS-4000 ED",
            Model::Ls50 => "LS-50 ED",
            Model::Ls40 => "LS-40 ED",
        }
    }

    /// The model an INQUIRY product name belongs to
    pub fn from_product(product: &str) -> (r: Option<Model>)
        ensures
            r == Model::of_product(product@),
    {
        if same_text(product, "LS-9000 ED") {
            Some(Model::Ls9000)
        } else if same_text(product, "LS-8000 ED") {
            Some(Model::Ls8000)
        } else if same_text(product, "LS-5000 ED") {
            Some(Model::Ls5000)
        } else if same_text(product, "LS-4000 ED") {
            Some(Model::Ls4000)
        } else if same_text(product, "LS-50 ED") {
            Some(Model::Ls50)
        } else if same_text(product, "LS-40 ED") {
            Some(Model::Ls40)
        } else {
            None
        }
    }

    /// Whether this one takes medium format film
    pub open spec fn takes_medium_format(self) -> bool {
        self is Ls9000 || self is Ls8000
    }

    /// Whether this one takes medium format film
    pub fn is_medium_format(self) -> (r: bool)
        ensures
            r == self.takes_medium_format(),
    {
        match self {
            Model::Ls9000 | Model::Ls8000 => true,
            _ => false,
        }
    }
}

/// A model's name is the product name it is told by
pub proof fn law_name_tells_the_model(model: Model)
    ensures
        Model::of_product(model.product()) == Some(model),
{
    reveal_strlit("LS-9000 ED");
    reveal_strlit("LS-8000 ED");
    reveal_strlit("LS-5000 ED");
    reveal_strlit("LS-4000 ED");
    reveal_strlit("LS-50 ED");
    reveal_strlit("LS-40 ED");
    assert("LS-9000 ED"@[3] == '9' && "LS-8000 ED"@[3] == '8' && "LS-5000 ED"@[3] == '5'
        && "LS-4000 ED"@[3] == '4');
    assert("LS-50 ED"@.len() == 8 && "LS-40 ED"@.len() == 8 && "LS-5000 ED"@.len() == 10
        && "LS-4000 ED"@.len() == 10);
    assert("LS-50 ED"@[3] == '5' && "LS-40 ED"@[3] == '4');
}

/// A product name tells the one model that answers with it, and no other name
/// tells any
pub proof fn law_only_its_name_tells_a_model(product: Seq<char>)
    ensures
        match Model::of_product(product) {
            Some(model) => product == model.product(),
            None => forall|model: Model| product != #[trigger] model.product(),
        },
{
}

/// Only the 8000 and the 9000 take medium format film
pub proof fn law_what_takes_medium_format(model: Model)
    ensures
        model.takes_medium_format() <==> model.product() == "LS-8000 ED"@ || model.product()
            == "LS-9000 ED"@,
{
    law_name_tells_the_model(model);
    law_name_tells_the_model(Model::Ls8000);
    law_name_tells_the_model(Model::Ls9000);
}

} // verus!
