//! Why a user is coming: a closed set of tags, read from their exact names.

use vstd::prelude::*;

verus! {

/// The reason given with a declared arrival.
#[derive(Clone, Copy, Debug, PartialEq, Eq, Structural)]
pub enum Category {
    Gammeln,
    Connecten,
    Fokus,
}

/// The errors that a write to the board can report.
#[derive(Clone, Copy, Debug, PartialEq, Eq, Structural)]
pub enum StoreError {
    /// The category text is not one of the recognised names.
    UnknownCategory,
    /// The arrival text does not have the form `DD.MM.YYYY HH:MM:SS`.
    InvalidTimestamp,
}

/// The category whose name is exactly `s` (case-sensitive, no trimming).
pub open spec fn category_of(s: Seq<char>) -> Option<Category> {
    if s == "Gammeln"@ {
        Some(Category::Gammeln)
    } else if s == "Connecten"@ {
        Some(Category::Connecten)
    } else if s == "Fokus"@ {
        Some(Category::Fokus)
    } else {
        None
    }
}

/// Whether two strings hold the same characters.
pub(crate) fn same_text(a: &str, b: &str) -> (r: bool)
    ensures
        r == (a@ == b@),
{
    let x = a.to_owned();
    let y = b.to_owned();
    x == y
}

impl Category {
    /// The name that identifies this category.
    pub open spec fn spec_name(self) -> Seq<char> {
        match self {
            Category::Gammeln => "Gammeln"@,
            Category::Connecten => "Connecten"@,
            Category::Fokus => "Fokus"@,
        }
    }

    /// The name that identifies this category.
    pub fn name(&self) -> (r: &'static str)
        ensures
            r@ == self.spec_name(),
    {
        match self {
            Category::Gammeln => "Gammeln",
            Category::Connecten => "Connecten",
            Category::Fokus => "Fokus",
        }
    }

    /// Reads a category from its exact name.
    pub fn parse(s: &str) -> (r: Result<Category, StoreError>)
        ensures
            category_of(s@) is Some ==> r == Ok::<Category, StoreError>(category_of(s@)->Some_0),
            category_of(s@) is None ==> r == Err::<Category, StoreError>(StoreError::UnknownCategory),
    {
        if same_text(s, "Gammeln") {
            Ok(Category::Gammeln)
        } else if same_text(s, "Connecten") {
            Ok(Category::Connecten)
        } else if same_text(s, "Fokus") {
            Ok(Category::Fokus)
        } else {
            Err(StoreError::UnknownCategory)
        }
    }
}

/// Every category is read back from its own name.
pub proof fn lemma_parse_name(c: Category)
    ensures
        category_of(c.spec_name()) == Some(c),
{
    reveal_strlit("Gammeln");
    reveal_strlit("Connecten");
    reveal_strlit("Fokus");
    assert("Gammeln"@.len() == 7);
    assert("Connecten"@.len() == 9);
    assert("Fokus"@.len() == 5);
}

} // verus!
