//! The field of the form in focus, and the texts of the fields before and
//! after editing, to tell whether the form was changed.
use vstd::prelude::*;
use crate::gui::entities::field::FieldType;
use crate::command::opt_str;

verus! {

/// The slot of a field kind.
pub open spec fn slot(ft: FieldType) -> int {
    match ft {
        FieldType::Alias => 0,
        FieldType::Tags => 1,
        FieldType::Command => 2,
        FieldType::Description => 3,
        FieldType::Namespace => 4,
        FieldType::QueryBox => 5,
    }
}

fn slot_of(ft: FieldType) -> (r: usize)
    ensures
        r as int == slot(ft),
{
    match ft {
        FieldType::Alias => 0,
        FieldType::Tags => 1,
        FieldType::Command => 2,
        FieldType::Description => 3,
        FieldType::Namespace => 4,
        FieldType::QueryBox => 5,
    }
}

/// The field kinds of the form.
pub open spec fn form_field(ft: FieldType) -> bool {
    ft != FieldType::QueryBox
}

/// The texts recorded for each field kind, as a map.
pub open spec fn texts_map(slots: Seq<Option<String>>) -> Map<FieldType, Seq<char>> {
    Map::new(|ft: FieldType| slots[slot(ft)] is Some, |ft: FieldType| slots[slot(ft)]->0@)
}

/// The field in focus and the texts before and after editing.
pub struct FieldState {
    selected: Option<FieldType>,
    original_fields: Vec<Option<String>>,
    edited_fields: Vec<Option<String>>,
}

/// Whether some field's edited text differs from its original one, or is
/// missing.
pub open spec fn modified(original: Map<FieldType, Seq<char>>, edited: Map<FieldType, Seq<char>>) -> bool {
    exists|ft: FieldType| #[trigger] original.dom().contains(ft) && (!edited.dom().contains(ft) || edited[ft] != original[ft])
}

/// Every form field with an empty text.
pub open spec fn blank_texts() -> Map<FieldType, Seq<char>> {
    Map::new(|ft: FieldType| form_field(ft), |ft: FieldType| Seq::<char>::empty())
}

impl FieldState {
    /// One slot per field kind.
    pub closed spec fn well_formed(&self) -> bool {
        self.original_fields@.len() == 6 && self.edited_fields@.len() == 6
    }

    /// The field in focus.
    pub closed spec fn focus(&self) -> Option<FieldType> {
        self.selected
    }

    /// The texts before editing.
    pub closed spec fn original(&self) -> Map<FieldType, Seq<char>> {
        texts_map(self.original_fields@)
    }

    /// The texts after editing.
    pub closed spec fn edited(&self) -> Map<FieldType, Seq<char>> {
        texts_map(self.edited_fields@)
    }

    /// No field in focus, no text recorded.
    pub fn new() -> (r: FieldState)
        ensures
            r.well_formed(),
            r.focus() is None,
            r.original() == Map::<FieldType, Seq<char>>::empty(),
            r.edited() == Map::<FieldType, Seq<char>>::empty(),
    {
        let mut a: Vec<Option<String>> = Vec::new();
        let mut b: Vec<Option<String>> = Vec::new();
        let mut i: usize = 0;
        while i < 6
            invariant
                i <= 6,
                a@.len() == i,
                b@.len() == i,
                forall|k: int| 0 <= k < i ==> a@[k] is None && b@[k] is None,
            decreases 6 - i,
        {
            a.push(None);
            b.push(None);
            i = i + 1;
        }
        let r = FieldState { selected: None, original_fields: a, edited_fields: b };
        assert(r.original() =~= Map::<FieldType, Seq<char>>::empty());
        assert(r.edited() =~= Map::<FieldType, Seq<char>>::empty());
        r
    }

    /// The field in focus.
    pub fn selected(&self) -> (r: Option<FieldType>)
        ensures
            r == self.focus(),
    {
        self.selected
    }

    /// Puts a field in focus, or none.
    pub fn select(&mut self, field_type: Option<FieldType>)
        ensures
            final(self).well_formed() == old(self).well_formed(),
            final(self).focus() == field_type,
            final(self).original() == old(self).original(),
            final(self).edited() == old(self).edited(),
    {
        self.selected = field_type;
    }

    /// Records the text of a field as both its original and edited text.
    pub fn update_field(&mut self, field_type: FieldType, text: String)
        requires
            old(self).well_formed(),
        ensures
            final(self).well_formed(),
            final(self).original() == old(self).original().insert(field_type, text@),
            final(self).edited() == old(self).edited().insert(field_type, text@),
            final(self).focus() == old(self).focus(),
    {
        let i = slot_of(field_type);
        let ghost o = self.original_fields@;
        let ghost e = self.edited_fields@;
        let t2 = text.clone();
        self.original_fields.set(i, Some(text));
        self.edited_fields.set(i, Some(t2));
        assert(self.original() =~= texts_map(o).insert(field_type, text@));
        assert(self.edited() =~= texts_map(e).insert(field_type, text@));
    }

    /// Records the edited text of a field.
    pub fn updated_edited_field(&mut self, field_type: FieldType, text: String)
        requires
            old(self).well_formed(),
        ensures
            final(self).well_formed(),
            final(self).original() == old(self).original(),
            final(self).edited() == old(self).edited().insert(field_type, text@),
            final(self).focus() == old(self).focus(),
    {
        let i = slot_of(field_type);
        let ghost e = self.edited_fields@;
        self.edited_fields.set(i, Some(text));
        assert(self.edited() =~= texts_map(e).insert(field_type, text@));
    }

    /// Whether some field's edited text differs from its original one.
    pub fn is_modified(&self) -> (r: bool)
        requires
            self.well_formed(),
        ensures
            r == modified(self.original(), self.edited()),
    {
        let mut k: usize = 0;
        while k < 6
            invariant
                k <= 6,
                self.well_formed(),
                forall|ft: FieldType| slot(ft) < k ==> !(#[trigger] self.original().dom().contains(ft)
                    && (!self.edited().dom().contains(ft) || self.edited()[ft] != self.original()[ft])),
            decreases 6 - k,
        {
            match &self.original_fields[k] {
                Some(original) => match &self.edited_fields[k] {
                    Some(edited) => {
                        if !crate::text::str_eq(edited.as_str(), original.as_str()) {
                            proof {
                                let ft = kind_at(k as int);
                                assert(self.original().dom().contains(ft));
                            }
                            return true;
                        }
                    },
                    None => {
                        proof {
                            let ft = kind_at(k as int);
                            assert(self.original().dom().contains(ft));
                        }
                        return true;
                    },
                },
                None => {},
            }
            k = k + 1;
        }
        proof {
            assert forall|ft: FieldType| !(#[trigger] self.original().dom().contains(ft)
                && (!self.edited().dom().contains(ft) || self.edited()[ft] != self.original()[ft])) by {
                assert(slot(ft) < 6);
            }
        }
        false
    }

    /// Records an empty text for every field of the form, before and after
    /// editing.
    pub fn reset_fields_edition_state(&mut self)
        ensures
            final(self).well_formed(),
            final(self).original() == blank_texts(),
            final(self).edited() == blank_texts(),
            final(self).focus() == old(self).focus(),
    {
        let mut a: Vec<Option<String>> = Vec::new();
        let mut b: Vec<Option<String>> = Vec::new();
        let mut i: usize = 0;
        while i < 6
            invariant
                i <= 6,
                a@.len() == i,
                b@.len() == i,
                forall|k: int| 0 <= k < i ==> (if k == 5 { a@[k] is None && b@[k] is None } else {
                    (a@[k] matches Some(s) && s@.len() == 0) && (b@[k] matches Some(t) && t@.len() == 0)
                }),
            decreases 6 - i,
        {
            if i == 5 {
                a.push(None);
                b.push(None);
            } else {
                a.push(Some(String::new()));
                b.push(Some(String::new()));
            }
            i = i + 1;
        }
        self.original_fields = a;
        self.edited_fields = b;
        assert forall|ft: FieldType| #[trigger] self.original().dom().contains(ft) == form_field(ft)
            && self.edited().dom().contains(ft) == form_field(ft) by {
            let k = slot(ft);
            assert(0 <= k < 6);
        }
        assert forall|ft: FieldType| form_field(ft) implies #[trigger] self.original()[ft] == Seq::<char>::empty()
            && self.edited()[ft] == Seq::<char>::empty() by {
            let k = slot(ft);
            assert(0 <= k < 5);
        }
        assert(self.original() =~= blank_texts());
        assert(self.edited() =~= blank_texts());
    }
}

/// The field kind of a slot.
pub open spec fn kind_at(k: int) -> FieldType {
    if k == 0 {
        FieldType::Alias
    } else if k == 1 {
        FieldType::Tags
    } else if k == 2 {
        FieldType::Command
    } else if k == 3 {
        FieldType::Description
    } else if k == 4 {
        FieldType::Namespace
    } else {
        FieldType::QueryBox
    }
}

} // verus!
