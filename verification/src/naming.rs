//! From rendered names to final names: counters for names that occur more
//! than once, and the extension of the file that is being renamed.

use crate::outside::{extension_of, nested_text, path_extension};
use crate::types::Config;
use crate::util::{counter_width, get_usize_len, push_zero_padded, zero_padded};
use std::path::PathBuf;
use vstd::prelude::*;
use vstd::string::StringExecFns;

pub mod laws;
mod tally;

use tally::tally;

verus! {

/// Why a file gets no final name.
#[derive(Clone, Copy, Debug, PartialEq, Eq, Structural)]
pub enum NameError {
    /// Several files were given the same name and counters are switched off.
    Ambiguous,
    /// The extension of the file is not valid Unicode.
    NonUtf8Extension,
}

impl NameError {
    /// The error in words.
    pub open spec fn text(self) -> Seq<char> {
        match self {
            NameError::Ambiguous => "ambiguous name: several files would get it"@,
            NameError::NonUtf8Extension => "non-utf8 extension"@,
        }
    }

    /// The error in words.
    pub fn message(&self) -> (r: String)
        ensures
            r@ == self.text(),
    {
        match self {
            NameError::Ambiguous => "ambiguous name: several files would get it".to_owned(),
            NameError::NonUtf8Extension => "non-utf8 extension".to_owned(),
        }
    }
}

/// The counter that tells one file of a group from the others.
#[derive(Clone, Copy, Debug, PartialEq, Eq, Structural)]
pub struct Counter {
    /// The place of the file in its group, from zero.
    pub ordinal: usize,
    /// The least number of digits with which the counter is written.
    pub width: usize,
}

/// The parts of a final name.
#[derive(Clone, Debug, PartialEq, Eq)]
pub struct FinalNameParts {
    /// The rendered name.
    pub base: String,
    /// The counter, for a file that shares its rendered name with others.
    pub counter: Option<Counter>,
    /// The extension of the file, without its dot.
    pub extension: Option<String>,
}

/// What a counter adds to a name: an underscore and the ordinal, padded with
/// zeros to the counter's width.
pub open spec fn counter_text(counter: Option<Counter>) -> Seq<char> {
    match counter {
        Some(c) => seq!['_'] + zero_padded(c.ordinal as nat, c.width as nat),
        None => Seq::empty(),
    }
}

/// What an extension adds to a name: a dot and the extension.
pub open spec fn extension_text(extension: Option<Seq<char>>) -> Seq<char> {
    match extension {
        Some(text) => seq!['.'] + text,
        None => Seq::empty(),
    }
}

/// A final name: the rendered name, then the counter, then the extension.
pub open spec fn joined(base: Seq<char>, counter: Option<Counter>, extension: Option<Seq<char>>) -> Seq<
    char,
> {
    base + counter_text(counter) + extension_text(extension)
}

/// `FinalNameParts` with its texts as sequences of characters.
pub struct FinalName {
    pub base: Seq<char>,
    pub counter: Option<Counter>,
    pub extension: Option<Seq<char>>,
}

impl FinalName {
    /// The name that the parts make.
    pub open spec fn text(self) -> Seq<char> {
        joined(self.base, self.counter, self.extension)
    }
}

impl View for FinalNameParts {
    type V = FinalName;

    open spec fn view(&self) -> FinalName {
        FinalName {
            base: self.base@,
            counter: self.counter,
            extension: match self.extension {
                Some(text) => Some(text@),
                None => None,
            },
        }
    }
}

impl FinalNameParts {
    /// Joins the parts.
    pub fn final_name(&self) -> (name: String)
        ensures
            name@ == self@.text(),
    {
        let mut name = self.base.clone();
        match self.counter {
            Some(c) => {
                let ghost before = name@;
                name.push('_');
                push_zero_padded(&mut name, c.ordinal, c.width);
                proof {
                    assert(before.push('_') + zero_padded(c.ordinal as nat, c.width as nat)
                        =~= before + counter_text(self.counter));
                }
            },
            None => {
                proof {
                    assert(name@ + counter_text(self.counter) =~= name@);
                }
            },
        }
        match &self.extension {
            Some(text) => {
                let ghost before = name@;
                name.push('.');
                name.append(text.as_str());
                proof {
                    assert(before.push('.') + text@ =~= before + extension_text(Some(text@)));
                }
            },
            None => {
                proof {
                    assert(name@ + extension_text(None) =~= name@);
                }
            },
        }
        name
    }
}

/// The text of a name, or the reason why there is none.
pub open spec fn name_text(name: Result<String, NameError>) -> Result<Seq<char>, NameError> {
    match name {
        Ok(text) => Ok(text@),
        Err(error) => Err(error),
    }
}

/// The final name for the rendered name `to`, which is one of a group whose
/// counters have the width `cnt_width`; the width is zero for a name that
/// stands alone. With counters switched off a name of a group is ambiguous,
/// whatever its extension is. Else the counter is added where the width is
/// not zero, and then the extension, which must be valid Unicode if there is
/// one.
pub open spec fn finalised(
    no_counter: bool,
    extension: Option<Option<Seq<char>>>,
    to: Seq<char>,
    cnt: nat,
    cnt_width: nat,
) -> Result<Seq<char>, NameError> {
    if no_counter && cnt_width > 0 {
        Err(NameError::Ambiguous)
    } else {
        let counted = if cnt_width > 0 {
            to + seq!['_'] + zero_padded(cnt, cnt_width)
        } else {
            to
        };
        match extension {
            None => Ok(counted),
            Some(None) => Err(NameError::NonUtf8Extension),
            Some(Some(text)) => Ok(counted + seq!['.'] + text),
        }
    }
}

/// The final name for `to`, for a file whose extension is `extension`:
/// `None` where the file has none, `Some(None)` where it has one that is not
/// valid Unicode. `cnt` is the place of the file in its group and `cnt_width`
/// the width of the group's counters, zero for a file that stands alone.
pub fn finalise_name_with_extension(
    cfg: &Config,
    extension: Option<Option<String>>,
    to: String,
    cnt: usize,
    cnt_width: usize,
) -> (r: Result<String, NameError>)
    ensures
        name_text(r) == finalised(
            cfg.no_counter,
            nested_text(extension),
            to@,
            cnt as nat,
            cnt_width as nat,
        ),
{
    let mut to_mod = to;
    if cnt_width > 0 {
        if cfg.no_counter {
            return Err(NameError::Ambiguous);
        }
        let ghost before = to_mod@;
        to_mod.push('_');
        push_zero_padded(&mut to_mod, cnt, cnt_width);
        proof {
            assert(before.push('_') + zero_padded(cnt as nat, cnt_width as nat) =~= before
                + seq!['_'] + zero_padded(cnt as nat, cnt_width as nat));
        }
    }
    match extension {
        None => Ok(to_mod),
        Some(None) => Err(NameError::NonUtf8Extension),
        Some(Some(text)) => {
            let ghost before = to_mod@;
            to_mod.push('.');
            to_mod.append(text.as_str());
            proof {
                assert(before.push('.') + text@ =~= before + seq!['.'] + text@);
            }
            Ok(to_mod)
        },
    }
}

/// The final name for `to`, for the file `from`, whose place in its group is
/// `cnt`; `cnt_width` is the width of the group's counters, zero for a file
/// that stands alone.
pub fn finalise_name(cfg: &Config, from: &PathBuf, to: String, cnt: usize, cnt_width: usize) -> (r:
    Result<String, NameError>)
    ensures
        name_text(r) == finalised(
            cfg.no_counter,
            path_extension(*from),
            to@,
            cnt as nat,
            cnt_width as nat,
        ),
{
    finalise_name_with_extension(cfg, extension_of(from), to, cnt, cnt_width)
}

/// How often `name` occurs in `names`.
pub open spec fn occurrences(names: Seq<Seq<char>>, name: Seq<char>) -> nat
    decreases names.len(),
{
    if names.len() == 0 {
        0
    } else {
        occurrences(names.drop_last(), name) + if names.last() == name {
            1nat
        } else {
            0nat
        }
    }
}

/// The size of the group that the name at position `at` belongs to: the
/// number of names equal to it.
pub open spec fn group_size(names: Seq<Seq<char>>, at: int) -> nat {
    occurrences(names, names[at])
}

/// The place of the name at position `at` in its group: the number of equal
/// names before it.
pub open spec fn group_rank(names: Seq<Seq<char>>, at: int) -> nat {
    occurrences(names.take(at), names[at])
}

/// The counter for the name at position `at`. A name that occurs once gets
/// none. In a group of `n` names the counters are the places in the group,
/// written with as many digits as `n - 1` has; with counters switched off
/// such a group is ambiguous.
pub open spec fn counter_at(names: Seq<Seq<char>>, at: int, enable_suffix: bool) -> Result<
    Option<Counter>,
    NameError,
> {
    let size = group_size(names, at);
    if size <= 1 {
        Ok(None)
    } else if enable_suffix {
        Ok(
            Some(
                Counter {
                    ordinal: group_rank(names, at) as usize,
                    width: counter_width((size - 1) as nat) as usize,
                },
            ),
        )
    } else {
        Err(NameError::Ambiguous)
    }
}

/// The parts of the final name at position `at`, for a file with the given
/// extension. Ambiguity is found before the extension is looked at.
pub open spec fn resolved(
    extension: Option<Option<Seq<char>>>,
    names: Seq<Seq<char>>,
    at: int,
    enable_suffix: bool,
) -> Result<FinalName, NameError> {
    match counter_at(names, at, enable_suffix) {
        Err(error) => Err(error),
        Ok(counter) => match extension {
            Some(None) => Err(NameError::NonUtf8Extension),
            Some(Some(text)) => Ok(FinalName { base: names[at], counter, extension: Some(text) }),
            None => Ok(FinalName { base: names[at], counter, extension: None }),
        },
    }
}

/// Final name parts with their texts as sequences of characters.
pub open spec fn parts_view(parts: Result<FinalNameParts, NameError>) -> Result<
    FinalName,
    NameError,
> {
    match parts {
        Ok(p) => Ok(p@),
        Err(error) => Err(error),
    }
}

/// The rendered names of `entries`, which pair the extension of a file with
/// its rendered name.
pub open spec fn rendered_of(entries: Seq<(Option<Option<String>>, String)>) -> Seq<Seq<char>> {
    Seq::new(entries.len(), |k: int| entries[k].1@)
}

/// Gives every entry the parts of its final name.
///
/// Entries are grouped by rendered name, in the order in which they stand.
/// `entries` pairs the extension of each file with its rendered name; an
/// extension is `None` where the file has none and `Some(None)` where it is
/// not valid Unicode.
pub fn group_and_suffix_with_extensions(
    entries: &Vec<(Option<Option<String>>, String)>,
    enable_suffix: bool,
) -> (out: Vec<Result<FinalNameParts, NameError>>)
    ensures
        out.len() == entries.len(),
        forall|i: int|
            0 <= i < entries.len() ==> parts_view(#[trigger] out[i]) == resolved(
                nested_text(entries[i].0),
                rendered_of(entries@),
                i,
                enable_suffix,
            ),
{
    let n = entries.len();
    let ghost names = rendered_of(entries@);
    let (ranks, sizes) = tally(entries);
    let mut out: Vec<Result<FinalNameParts, NameError>> = Vec::new();
    let mut i: usize = 0;
    while i < n
        invariant
            i <= n,
            n == entries.len(),
            names == rendered_of(entries@),
            ranks.len() == n,
            sizes.len() == n,
            forall|k: int| 0 <= k < n ==> (#[trigger] ranks[k]) == group_rank(names, k),
            forall|k: int| 0 <= k < n ==> (#[trigger] sizes[k]) == group_size(names, k),
            out.len() == i,
            forall|k: int|
                0 <= k < i ==> parts_view(#[trigger] out[k]) == resolved(
                    nested_text(entries[k].0),
                    names,
                    k,
                    enable_suffix,
                ),
        decreases n - i,
    {
        let size = sizes[i];
        let rank = ranks[i];
        let counter = if size <= 1 {
            Ok(None)
        } else if enable_suffix {
            Ok(Some(Counter { ordinal: rank, width: get_usize_len(size - 1) }))
        } else {
            Err(NameError::Ambiguous)
        };
        let parts = match counter {
            Err(error) => Err(error),
            Ok(counter) => match &entries[i].0 {
                Some(None) => Err(NameError::NonUtf8Extension),
                Some(Some(text)) => Ok(
                    FinalNameParts {
                        base: entries[i].1.clone(),
                        counter,
                        extension: Some(text.clone()),
                    },
                ),
                None => Ok(FinalNameParts { base: entries[i].1.clone(), counter, extension: None }),
            },
        };
        out.push(parts);
        i += 1;
    }
    out
}

/// The rendered names of `names`, which pair a file with its rendered name.
pub open spec fn rendered_names(names: Seq<(PathBuf, String)>) -> Seq<Seq<char>> {
    Seq::new(names.len(), |k: int| names[k].1@)
}

/// Gives every file the parts of its final name.
///
/// `names` pairs each file with its rendered name. Files are grouped by
/// rendered name, in the order in which they stand; a file that shares its
/// name gets a counter, or is refused as ambiguous where counters are
/// switched off. Every file keeps its own extension.
pub fn group_and_suffix(names: &Vec<(PathBuf, String)>, enable_suffix: bool) -> (out: Vec<
    Result<FinalNameParts, NameError>,
>)
    ensures
        out.len() == names.len(),
        forall|i: int|
            0 <= i < names.len() ==> parts_view(#[trigger] out[i]) == resolved(
                path_extension(names[i].0),
                rendered_names(names@),
                i,
                enable_suffix,
            ),
{
    let mut entries: Vec<(Option<Option<String>>, String)> = Vec::new();
    let mut k: usize = 0;
    while k < names.len()
        invariant
            k <= names.len(),
            entries.len() == k,
            forall|m: int|
                0 <= m < k ==> nested_text((#[trigger] entries[m]).0) == path_extension(names[m].0)
                    && entries[m].1@ == names[m].1@,
        decreases names.len() - k,
    {
        entries.push((extension_of(&names[k].0), names[k].1.clone()));
        k += 1;
    }
    proof {
        assert(rendered_of(entries@) =~= rendered_names(names@));
    }
    group_and_suffix_with_extensions(&entries, enable_suffix)
}

} // verus!
