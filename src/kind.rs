use vstd::prelude::*;

verus! {

/// The six categories of documentation that the store holds.
#[derive(Debug, Clone, Copy, PartialEq, Eq, Hash, Structural)]
pub enum NGLDataKind {
    Function,
    Example,
    Guide,
    Option,
    Package,
    Type,
}

/// A host kind is any kind that may embed examples, that is every kind but `Example`.
pub open spec fn is_host(k: NGLDataKind) -> bool {
    k != NGLDataKind::Example
}

/// The name under which a kind is written to, and read back from, the search table.
pub open spec fn kind_name(k: NGLDataKind) -> Seq<char> {
    match k {
        NGLDataKind::Function => "Function"@,
        NGLDataKind::Example => "Example"@,
        NGLDataKind::Guide => "Guide"@,
        NGLDataKind::Option => "Option"@,
        NGLDataKind::Package => "Package"@,
        NGLDataKind::Type => "Type"@,
    }
}

impl NGLDataKind {
    pub fn is_host_kind(&self) -> (r: bool)
        ensures
            r == is_host(*self),
    {
        !matches!(self, NGLDataKind::Example)
    }

    /// The kind's name as stored in the search table's `kind` column.
    pub fn name(&self) -> (r: String)
        ensures
            r@ == kind_name(*self),
    {
        match self {
            NGLDataKind::Function => "Function".to_owned(),
            NGLDataKind::Example => "Example".to_owned(),
            NGLDataKind::Guide => "Guide".to_owned(),
            NGLDataKind::Option => "Option".to_owned(),
            NGLDataKind::Package => "Package".to_owned(),
            NGLDataKind::Type => "Type".to_owned(),
        }
    }
}

/// Whether `k` occurs in `ks`.
pub fn contains_kind(ks: &Vec<NGLDataKind>, k: NGLDataKind) -> (r: bool)
    ensures
        r == ks@.contains(k),
{
    let mut i: usize = 0;
    while i < ks.len()
        invariant
            0 <= i <= ks@.len(),
            forall|j: int| 0 <= j < i ==> ks@[j] != k,
        decreases ks@.len() - i,
    {
        if ks[i] == k {
            return true;
        }
        i = i + 1;
    }
    false
}

/// The markup of a stored document body.
#[derive(Debug, Clone, Copy, PartialEq, Eq, Structural)]
pub enum DocumentationFormat {
    HTML,
    Markdown,
    PlainText,
}

impl DocumentationFormat {
    /// The tag under which the format is stored.
    pub fn as_str(&self) -> (r: &'static str)
        ensures
            r@ == match *self {
                DocumentationFormat::HTML => "html"@,
                DocumentationFormat::Markdown => "markdown"@,
                DocumentationFormat::PlainText => "plaintext"@,
            },
    {
        match self {
            DocumentationFormat::HTML => "html",
            DocumentationFormat::Markdown => "markdown",
            DocumentationFormat::PlainText => "plaintext",
        }
    }
}

/// The language of an extracted code block.
#[derive(Debug, Clone, Copy, PartialEq, Eq, Structural)]
pub enum Language {
    Nix,
}

impl Language {
    /// The tag under which the language is stored.
    pub fn as_str(&self) -> (r: &'static str)
        ensures
            r@ == "nix"@,
    {
        "nix"
    }
}

/// A document body tagged with its markup.
#[derive(Debug, Clone, PartialEq, Eq)]
pub enum NGLRaw {
    Markdown(String),
    HTML(String),
    PlainText(String),
}

impl NGLRaw {
    /// Tags `data` with the raw variant that matches `format`.
    pub fn from_format(format: DocumentationFormat, data: String) -> (r: NGLRaw)
        ensures
            r == match format {
                DocumentationFormat::Markdown => NGLRaw::Markdown(data),
                DocumentationFormat::HTML => NGLRaw::HTML(data),
                DocumentationFormat::PlainText => NGLRaw::PlainText(data),
            },
    {
        match format {
            DocumentationFormat::Markdown => NGLRaw::Markdown(data),
            DocumentationFormat::HTML => NGLRaw::HTML(data),
            DocumentationFormat::PlainText => NGLRaw::PlainText(data),
        }
    }
}

/// A kind as named on the command line.
#[derive(Debug, Clone, Copy, PartialEq, Eq, Structural)]
pub enum Kind {
    Function,
    Example,
    Guide,
    Option,
    Package,
    Type,
}

/// The document kind a command-line kind stands for.
pub open spec fn data_kind_of(k: Kind) -> NGLDataKind {
    match k {
        Kind::Function => NGLDataKind::Function,
        Kind::Example => NGLDataKind::Example,
        Kind::Guide => NGLDataKind::Guide,
        Kind::Option => NGLDataKind::Option,
        Kind::Package => NGLDataKind::Package,
        Kind::Type => NGLDataKind::Type,
    }
}

/// The command-line kind a lower-case name stands for.
pub open spec fn kind_named(name: Seq<char>) -> Option<Kind> {
    if name == "function"@ {
        Some(Kind::Function)
    } else if name == "example"@ {
        Some(Kind::Example)
    } else if name == "guide"@ {
        Some(Kind::Guide)
    } else if name == "option"@ {
        Some(Kind::Option)
    } else if name == "package"@ {
        Some(Kind::Package)
    } else if name == "type"@ {
        Some(Kind::Type)
    } else {
        None
    }
}

impl Kind {
    /// The kind a lower-case command-line name stands for, if any.
    pub fn from_name(name: &str) -> (r: Option<Kind>)
        ensures
            r == kind_named(name@),
    {
        if crate::text::str_eq(name, "function") {
            Some(Kind::Function)
        } else if crate::text::str_eq(name, "example") {
            Some(Kind::Example)
        } else if crate::text::str_eq(name, "guide") {
            Some(Kind::Guide)
        } else if crate::text::str_eq(name, "option") {
            Some(Kind::Option)
        } else if crate::text::str_eq(name, "package") {
            Some(Kind::Package)
        } else if crate::text::str_eq(name, "type") {
            Some(Kind::Type)
        } else {
            None
        }
    }
}

impl From<Kind> for NGLDataKind {
    fn from(kind: Kind) -> (r: NGLDataKind) {
        match kind {
            Kind::Function => NGLDataKind::Function,
            Kind::Example => NGLDataKind::Example,
            Kind::Guide => NGLDataKind::Guide,
            Kind::Option => NGLDataKind::Option,
            Kind::Package => NGLDataKind::Package,
            Kind::Type => NGLDataKind::Type,
        }
    }
}

impl vstd::std_specs::convert::FromSpecImpl<Kind> for NGLDataKind {
    open spec fn obeys_from_spec() -> bool {
        true
    }

    open spec fn from_spec(kind: Kind) -> NGLDataKind {
        data_kind_of(kind)
    }
}

} // verus!
