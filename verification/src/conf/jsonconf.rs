use crate::parser_config::ValueType;
use vstd::prelude::*;

verus! {

/// A whole configuration, as it is written down.
#[derive(Debug, PartialEq, Eq)]
pub struct ConfigRoot {
    pub comment: Option<String>,
    pub parser_opts: ParserOpts,
    pub sanitize_columns: Option<Vec<SanitizeColumnsEntry>>,
    pub type_columns: Option<Vec<TypeColumnsEntry>>,
}

/// Which lines are dropped before they are tokenized.
#[derive(Debug, PartialEq, Eq)]
pub struct ParserOptLines {
    pub comment: Option<String>,
    pub skip_lines_from_start: Option<usize>,
    pub skip_lines_by_startswith: Option<Vec<String>>,
    pub skip_lines_by_regex: Option<Vec<String>>,
    pub skip_empty_lines: Option<bool>,
}

/// How lines are read and split.
#[derive(Debug, PartialEq, Eq)]
pub struct ParserOpts {
    pub comment: Option<String>,
    pub separator_char: char,
    pub enclosure_char: Option<char>,
    pub lines: Option<ParserOptLines>,
    pub first_line_is_header: bool,
    pub save_skipped_lines: bool,
}

#[derive(Debug, Clone, Copy, PartialEq, Eq, Structural)]
pub enum TrimOpts {
    All,
    Leading,
    Trailing,
}

#[derive(Debug, Clone, Copy, PartialEq, Eq, Structural)]
pub enum CasingOpts {
    ToLower,
    ToUpper,
}

#[derive(Debug, PartialEq, Eq)]
pub struct ReplaceColumnSanitizerEntry {
    pub from: String,
    pub to: String,
}

/// One kind of token transform with what it needs; a list stands for one
/// transform per item.
#[derive(Debug, PartialEq, Eq)]
#[allow(inconsistent_fields)]
pub enum SanitizeColumnOpts {
    Trim { spec: TrimOpts },
    Casing { spec: CasingOpts },
    Eradicate { spec: Vec<String> },
    Replace { spec: Vec<ReplaceColumnSanitizerEntry> },
    RegexTake { spec: String },
}

/// The transforms for the columns `idxs`, or for every column where no
/// column is named.
#[derive(Debug, PartialEq, Eq)]
pub struct SanitizeColumnsEntry {
    pub comment: Option<String>,
    pub idxs: Option<Vec<usize>>,
    pub sanitizers: Vec<SanitizeColumnOpts>,
}

/// The typing of one column, as it is written down.
#[derive(Debug, PartialEq, Eq)]
pub struct TypeColumnsEntry {
    pub header: Option<String>,
    pub comment: Option<String>,
    pub target_type: ValueType,
    pub src_pattern: Option<String>,
    pub map_to_none: Option<Vec<String>>,
}

impl TypeColumnsEntry {
    pub fn new(target_type: ValueType) -> (e: Self)
        ensures
            e == (TypeColumnsEntry {
                header: None,
                comment: None,
                target_type,
                src_pattern: None,
                map_to_none: None,
            }),
    {
        Self { header: None, comment: None, target_type, src_pattern: None, map_to_none: None }
    }

    pub fn builder() -> (b: TypeColumnsEntryBuilder)
        ensures
            b == TypeColumnsEntryBuilder::blank(),
    {
        TypeColumnsEntryBuilder::new()
    }
}

/// Collects the parts of a [`TypeColumnsEntry`].
pub struct TypeColumnsEntryBuilder {
    pub header: Option<String>,
    pub comment: Option<String>,
    pub target_type: Option<ValueType>,
    pub src_pattern: Option<String>,
    pub map_to_none: Option<Vec<String>>,
}

impl TypeColumnsEntryBuilder {
    /// The builder that holds nothing.
    pub open spec fn blank() -> Self {
        TypeColumnsEntryBuilder {
            header: None,
            comment: None,
            target_type: None,
            src_pattern: None,
            map_to_none: None,
        }
    }

    pub fn new() -> (b: Self)
        ensures
            b == Self::blank(),
    {
        Self { header: None, comment: None, target_type: None, src_pattern: None, map_to_none: None }
    }

    pub fn with_header(&mut self, header: &str) -> (b: &mut Self)
        ensures
            b.header matches Some(h) && h@ == header@,
            b.comment == old(self).comment,
            b.target_type == old(self).target_type,
            b.src_pattern == old(self).src_pattern,
            b.map_to_none == old(self).map_to_none,
            *final(self) == *final(b),
    {
        self.header = Some(String::from_str(header));
        self
    }

    pub fn with_comment(&mut self, comment: &str) -> (b: &mut Self)
        ensures
            b.header == old(self).header,
            b.comment matches Some(c) && c@ == comment@,
            b.target_type == old(self).target_type,
            b.src_pattern == old(self).src_pattern,
            b.map_to_none == old(self).map_to_none,
            *final(self) == *final(b),
    {
        self.comment = Some(String::from_str(comment));
        self
    }

    pub fn with_datetype_src_pattern(&mut self, pattern: &str) -> (b: &mut Self)
        ensures
            b.header == old(self).header,
            b.comment == old(self).comment,
            b.target_type == old(self).target_type,
            b.src_pattern matches Some(p) && p@ == pattern@,
            b.map_to_none == old(self).map_to_none,
            *final(self) == *final(b),
    {
        self.src_pattern = Some(String::from_str(pattern));
        self
    }

    pub fn with_map_to_none(&mut self, map_to_none: Vec<String>) -> (b: &mut Self)
        ensures
            b.header == old(self).header,
            b.comment == old(self).comment,
            b.target_type == old(self).target_type,
            b.src_pattern == old(self).src_pattern,
            b.map_to_none == Some(map_to_none),
            *final(self) == *final(b),
    {
        self.map_to_none = Some(map_to_none);
        self
    }

    /// The entry for the parts collected so far and the type
    /// `target_type`. The builder is left with its type alone.
    pub fn build_with_target_type(&mut self, target_type: ValueType) -> (e: TypeColumnsEntry)
        ensures
            e == (TypeColumnsEntry {
                header: old(self).header,
                comment: old(self).comment,
                target_type,
                src_pattern: old(self).src_pattern,
                map_to_none: old(self).map_to_none,
            }),
            *final(self) == (TypeColumnsEntryBuilder {
                target_type: old(self).target_type,
                ..Self::blank()
            }),
    {
        let mut header: Option<String> = None;
        let mut comment: Option<String> = None;
        let mut src_pattern: Option<String> = None;
        let mut map_to_none: Option<Vec<String>> = None;
        std::mem::swap(&mut header, &mut self.header);
        std::mem::swap(&mut comment, &mut self.comment);
        std::mem::swap(&mut src_pattern, &mut self.src_pattern);
        std::mem::swap(&mut map_to_none, &mut self.map_to_none);
        TypeColumnsEntry { header, comment, target_type, src_pattern, map_to_none }
    }
}

impl Default for TypeColumnsEntryBuilder {
    fn default() -> (b: Self)
        ensures
            b == Self::blank(),
    {
        Self::new()
    }
}

} // verus!
