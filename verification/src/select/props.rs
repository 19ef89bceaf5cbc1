//! Public parameter types of `Select`.

use vstd::prelude::*;

verus! {

/// One choice of a `Select`.
///
/// `value` is the stable value reported to the outside, `label` is what is shown
/// and searched. Duplicate values are allowed; the first match wins.
#[derive(Debug)]
pub struct SelectOption {
    /// Stable value.
    pub value: String,
    /// Display text, also used by the local search.
    pub label: String,
    /// Disabled options are shown but can be neither highlighted nor chosen.
    pub disabled: bool,
}

impl Clone for SelectOption {
    fn clone(&self) -> (o: Self)
        ensures
            o == *self,
    {
        SelectOption { value: self.value.clone(), label: self.label.clone(), disabled: self.disabled }
    }
}

impl SelectOption {
    /// An enabled option.
    pub fn new(value: &str, label: &str) -> (o: Self)
        ensures
            o.value@ == value@,
            o.label@ == label@,
            !o.disabled,
    {
        SelectOption { value: value.to_owned(), label: label.to_owned(), disabled: false }
    }

    /// An enabled option whose label is its value.
    pub fn simple(value: &str) -> (o: Self)
        ensures
            o.value@ == value@,
            o.label@ == value@,
            !o.disabled,
    {
        SelectOption { value: value.to_owned(), label: value.to_owned(), disabled: false }
    }

    /// The same option with the given disabled flag.
    pub fn disabled(self, disabled: bool) -> (o: Self)
        ensures
            o.value == self.value,
            o.label == self.label,
            o.disabled == disabled,
    {
        SelectOption { disabled, ..self }
    }
}

/// Size of a `Select`.
#[derive(Clone, Copy, Debug, PartialEq, Eq, Structural)]
pub enum SelectSize {
    /// Dense toolbars and table filters.
    Small,
    /// Regular forms.
    Medium,
    /// Emphasised areas.
    Large,
}

impl Default for SelectSize {
    fn default() -> (s: Self)
        ensures
            s == SelectSize::Medium,
    {
        SelectSize::Medium
    }
}

/// Visual variant of a `Select`.
#[derive(Clone, Copy, Debug, PartialEq, Eq, Structural)]
pub enum SelectVariant {
    /// Bordered.
    Outlined,
    /// Lightly filled.
    Filled,
    /// Borderless.
    Borderless,
}

impl Default for SelectVariant {
    fn default() -> (v: Self)
        ensures
            v == SelectVariant::Outlined,
    {
        SelectVariant::Outlined
    }
}

/// Semantic status of a `Select`.
#[derive(Clone, Copy, Debug, PartialEq, Eq, Structural)]
pub enum SelectStatus {
    /// No status.
    Default,
    /// Error.
    Error,
    /// Warning.
    Warning,
    /// Success.
    Success,
}

impl Default for SelectStatus {
    fn default() -> (s: Self)
        ensures
            s == SelectStatus::Default,
    {
        SelectStatus::Default
    }
}

/// Creation parameters of a `Select`, without the callbacks that the host
/// application attaches.
pub struct SelectProps {
    /// Initially chosen value.
    pub value: Option<String>,
    /// Text shown when nothing is chosen.
    pub placeholder: String,
    /// The choices.
    pub options: Vec<SelectOption>,
    /// A disabled select cannot be focused, opened, chosen from or cleared.
    pub disabled: bool,
    /// Whether a clear button is offered.
    pub clearable: bool,
    /// Whether the field is marked as required.
    pub required: bool,
    /// Whether typing into the trigger filters the options.
    pub searchable: bool,
    /// Placeholder of the search text.
    pub search_placeholder: String,
    /// Size.
    pub size: SelectSize,
    /// Visual variant.
    pub variant: SelectVariant,
    /// Semantic status.
    pub status: SelectStatus,
    /// Helper text under the field.
    pub helper_text: Option<String>,
    /// Maximum height of the pop-up, in whole pixels.
    pub max_popup_height: u32,
    /// Text shown when no option matches.
    pub empty_text: String,
}

impl SelectProps {
    /// The default parameters.
    pub fn new() -> (p: Self)
        ensures
            p.value is None,
            p.placeholder@ == "请选择"@,
            p.options@.len() == 0,
            !p.disabled && !p.clearable && !p.required && !p.searchable,
            p.search_placeholder@ == "搜索选项"@,
            p.size == SelectSize::Medium,
            p.variant == SelectVariant::Outlined,
            p.status == SelectStatus::Default,
            p.helper_text is None,
            p.max_popup_height == 240,
            p.empty_text@ == "暂无选项"@,
    {
        SelectProps {
            value: None,
            placeholder: "请选择".to_owned(),
            options: Vec::new(),
            disabled: false,
            clearable: false,
            required: false,
            searchable: false,
            search_placeholder: "搜索选项".to_owned(),
            size: SelectSize::Medium,
            variant: SelectVariant::Outlined,
            status: SelectStatus::Default,
            helper_text: None,
            max_popup_height: 240,
            empty_text: "暂无选项".to_owned(),
        }
    }

    /// Sets the initial value.
    pub fn value(self, value: Option<String>) -> (p: Self)
        ensures
            p == (Self { value, ..self }),
    {
        Self { value, ..self }
    }

    /// Sets the placeholder.
    pub fn placeholder(self, placeholder: String) -> (p: Self)
        ensures
            p == (Self { placeholder, ..self }),
    {
        Self { placeholder, ..self }
    }

    /// Sets the options.
    pub fn options(self, options: Vec<SelectOption>) -> (p: Self)
        ensures
            p == (Self { options, ..self }),
    {
        Self { options, ..self }
    }

    /// Sets the disabled flag.
    pub fn disabled(self, disabled: bool) -> (p: Self)
        ensures
            p == (Self { disabled, ..self }),
    {
        Self { disabled, ..self }
    }

    /// Sets whether a clear button is offered.
    pub fn clearable(self, clearable: bool) -> (p: Self)
        ensures
            p == (Self { clearable, ..self }),
    {
        Self { clearable, ..self }
    }

    /// Sets the required flag.
    pub fn required(self, required: bool) -> (p: Self)
        ensures
            p == (Self { required, ..self }),
    {
        Self { required, ..self }
    }

    /// Sets whether the options can be searched.
    pub fn searchable(self, searchable: bool) -> (p: Self)
        ensures
            p == (Self { searchable, ..self }),
    {
        Self { searchable, ..self }
    }

    /// Sets the search placeholder.
    pub fn search_placeholder(self, search_placeholder: String) -> (p: Self)
        ensures
            p == (Self { search_placeholder, ..self }),
    {
        Self { search_placeholder, ..self }
    }

    /// Sets the size.
    pub fn size(self, size: SelectSize) -> (p: Self)
        ensures
            p == (Self { size, ..self }),
    {
        Self { size, ..self }
    }

    /// Sets the variant.
    pub fn variant(self, variant: SelectVariant) -> (p: Self)
        ensures
            p == (Self { variant, ..self }),
    {
        Self { variant, ..self }
    }

    /// Sets the status.
    pub fn status(self, status: SelectStatus) -> (p: Self)
        ensures
            p == (Self { status, ..self }),
    {
        Self { status, ..self }
    }

    /// Sets the helper text.
    pub fn helper_text(self, helper_text: Option<String>) -> (p: Self)
        ensures
            p == (Self { helper_text, ..self }),
    {
        Self { helper_text, ..self }
    }

    /// Sets the maximum pop-up height.
    pub fn max_popup_height(self, max_popup_height: u32) -> (p: Self)
        ensures
            p == (Self { max_popup_height, ..self }),
    {
        Self { max_popup_height, ..self }
    }

    /// Sets the empty text.
    pub fn empty_text(self, empty_text: String) -> (p: Self)
        ensures
            p == (Self { empty_text, ..self }),
    {
        Self { empty_text, ..self }
    }
}

} // verus!
