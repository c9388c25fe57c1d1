//! The columns of an output line, and the text form in which a list of
//! columns is written.

use crate::text::{
    found_at, from_chars, has_prefix, is_text, parse_unsigned, read_unsigned, replace_all,
    replaced, split, split_on, texts, to_chars,
};
use vstd::prelude::*;
use vstd::string::*;

verus! {

/// One column of an output line.
#[derive(Clone, Copy, Debug, PartialEq, Eq, Structural)]
pub enum OutputColumn {
    Hostname,
    RecordID,
    Timestamp,
    Provider,
    EventID,
    Version,
    Level,
    LevelName,
    Task,
    TaskName,
    Opcode,
    OpcodeName,
    Keywords,
    KeywordNames,
    /// A field of the event, counted from one.
    EventSpecific(u32),
    /// The message template, if the event has one.
    UnformattedMessage,
    /// The message template with the event's values filled in.
    FormattedMessage,
}

/// Why a list of column names was refused.
#[derive(Debug, PartialEq, Eq)]
pub enum ColumnError {
    /// The name is none of the known ones.
    UnexpectedName(String),
    /// What follows `variant` in the name is no field number.
    InvalidFieldNumber(String),
    /// `...` is followed by a numbered field but preceded by none.
    EllipsisWithoutStart,
    /// `...` is the last name of the list.
    EllipsisWithoutEnd,
}

/// The mathematical content of a [`ColumnError`].
pub enum ColumnErrorView {
    UnexpectedName(Seq<char>),
    InvalidFieldNumber(Seq<char>),
    EllipsisWithoutStart,
    EllipsisWithoutEnd,
}

impl View for ColumnError {
    type V = ColumnErrorView;

    open spec fn view(&self) -> ColumnErrorView {
        match self {
            ColumnError::UnexpectedName(s) => ColumnErrorView::UnexpectedName(s@),
            ColumnError::InvalidFieldNumber(s) => ColumnErrorView::InvalidFieldNumber(s@),
            ColumnError::EllipsisWithoutStart => ColumnErrorView::EllipsisWithoutStart,
            ColumnError::EllipsisWithoutEnd => ColumnErrorView::EllipsisWithoutEnd,
        }
    }
}

/// The column that a name of the fixed vocabulary stands for.
pub open spec fn named_column(name: Seq<char>) -> Option<OutputColumn> {
    if name == "hostname"@ {
        Some(OutputColumn::Hostname)
    } else if name == "recordid"@ {
        Some(OutputColumn::RecordID)
    } else if name == "timestamp"@ {
        Some(OutputColumn::Timestamp)
    } else if name == "provider"@ {
        Some(OutputColumn::Provider)
    } else if name == "eventid"@ {
        Some(OutputColumn::EventID)
    } else if name == "version"@ {
        Some(OutputColumn::Version)
    } else if name == "level"@ {
        Some(OutputColumn::Level)
    } else if name == "level_name"@ {
        Some(OutputColumn::LevelName)
    } else if name == "task"@ {
        Some(OutputColumn::Task)
    } else if name == "task_name"@ {
        Some(OutputColumn::TaskName)
    } else if name == "opcode"@ {
        Some(OutputColumn::Opcode)
    } else if name == "opcode_name"@ {
        Some(OutputColumn::OpcodeName)
    } else if name == "keywords"@ {
        Some(OutputColumn::Keywords)
    } else if name == "keyword_names"@ {
        Some(OutputColumn::KeywordNames)
    } else if name == "unformatted_message"@ {
        Some(OutputColumn::UnformattedMessage)
    } else if name == "formatted_message"@ {
        Some(OutputColumn::FormattedMessage)
    } else {
        None
    }
}

/// Executable form of [`named_column`].
pub fn column_by_name(name: &Vec<char>) -> (r: Option<OutputColumn>)
    ensures
        r == named_column(name@),
{
    if is_text(name, "hostname") {
        Some(OutputColumn::Hostname)
    } else if is_text(name, "recordid") {
        Some(OutputColumn::RecordID)
    } else if is_text(name, "timestamp") {
        Some(OutputColumn::Timestamp)
    } else if is_text(name, "provider") {
        Some(OutputColumn::Provider)
    } else if is_text(name, "eventid") {
        Some(OutputColumn::EventID)
    } else if is_text(name, "version") {
        Some(OutputColumn::Version)
    } else if is_text(name, "level") {
        Some(OutputColumn::Level)
    } else if is_text(name, "level_name") {
        Some(OutputColumn::LevelName)
    } else if is_text(name, "task") {
        Some(OutputColumn::Task)
    } else if is_text(name, "task_name") {
        Some(OutputColumn::TaskName)
    } else if is_text(name, "opcode") {
        Some(OutputColumn::Opcode)
    } else if is_text(name, "opcode_name") {
        Some(OutputColumn::OpcodeName)
    } else if is_text(name, "keywords") {
        Some(OutputColumn::Keywords)
    } else if is_text(name, "keyword_names") {
        Some(OutputColumn::KeywordNames)
    } else if is_text(name, "unformatted_message") {
        Some(OutputColumn::UnformattedMessage)
    } else if is_text(name, "formatted_message") {
        Some(OutputColumn::FormattedMessage)
    } else {
        None
    }
}

/// What has been read of a list of column names.
pub struct ColumnsSoFar {
    /// The columns read, in order.
    pub columns: Seq<OutputColumn>,
    /// The field number of the last column, if it was a numbered field.
    pub last_field: Option<u32>,
    /// Whether the last name was `...`.
    pub expanding: bool,
}

/// The numbered fields strictly between `from` and `to`, in order.
pub open spec fn fields_between(from: u32, to: u32) -> Seq<OutputColumn> {
    if from + 1 >= to {
        Seq::empty()
    } else {
        Seq::new((to - from - 1) as nat, |i: int| OutputColumn::EventSpecific((from + 1 + i) as u32))
    }
}

/// The state after one more name.
pub open spec fn after_name(state: ColumnsSoFar, name: Seq<char>) -> Result<
    ColumnsSoFar,
    ColumnErrorView,
> {
    if name == "..."@ {
        Ok(ColumnsSoFar { expanding: true, ..state })
    } else {
        match named_column(name) {
            Some(col) => Ok(
                ColumnsSoFar {
                    columns: state.columns.push(col),
                    last_field: None,
                    expanding: false,
                },
            ),
            None => if has_prefix(name, "variant"@) {
                let number = replaced(name, "variant"@, Seq::empty());
                match parse_unsigned(number, false, u32::MAX as nat) {
                    None => Err(ColumnErrorView::InvalidFieldNumber(number)),
                    Some(n) => if state.expanding && state.last_field is None {
                        Err(ColumnErrorView::EllipsisWithoutStart)
                    } else {
                        let filled = if state.expanding {
                            state.columns + fields_between(state.last_field->0, n as u32)
                        } else {
                            state.columns
                        };
                        Ok(
                            ColumnsSoFar {
                                columns: filled.push(OutputColumn::EventSpecific(n as u32)),
                                last_field: Some(n as u32),
                                expanding: false,
                            },
                        )
                    },
                }
            } else {
                Err(ColumnErrorView::UnexpectedName(name))
            },
        }
    }
}

/// The state after the first `n` names, or the first error met.
pub open spec fn after_names(names: Seq<Seq<char>>, n: int) -> Result<
    ColumnsSoFar,
    ColumnErrorView,
>
    decreases n,
{
    if n <= 0 {
        Ok(ColumnsSoFar { columns: Seq::empty(), last_field: None, expanding: false })
    } else {
        match after_names(names, n - 1) {
            Err(e) => Err(e),
            Ok(state) => after_name(state, names[n - 1]),
        }
    }
}

/// The columns that a comma-separated list of names stands for. `...`
/// between two numbered fields stands for the fields between them.
pub open spec fn parsed_columns(names: Seq<char>) -> Result<Seq<OutputColumn>, ColumnErrorView> {
    let pieces = split(names, ',');
    match after_names(pieces, pieces.len() as int) {
        Err(e) => Err(e),
        Ok(state) => if state.expanding {
            Err(ColumnErrorView::EllipsisWithoutEnd)
        } else {
            Ok(state.columns)
        },
    }
}

/// Reads a comma-separated list of column names.
pub fn parse_column_names(names: &str) -> (r: Result<Vec<OutputColumn>, ColumnError>)
    ensures
        r is Ok <==> parsed_columns(names@) is Ok,
        r matches Ok(v) ==> parsed_columns(names@) == Ok::<Seq<OutputColumn>, ColumnErrorView>(
            v@,
        ),
        r matches Err(e) ==> parsed_columns(names@) == Err::<Seq<OutputColumn>, ColumnErrorView>(
            e@,
        ),
{
    let chars = to_chars(names);
    let pieces = split_on(&chars, ',');
    let prefix = to_chars("variant");
    let nothing: Vec<char> = Vec::new();
    let mut columns: Vec<OutputColumn> = Vec::new();
    let mut last_field: Option<u32> = None;
    let mut expanding: bool = false;
    let mut i: usize = 0;
    while i < pieces.len()
        invariant
            i <= pieces.len(),
            prefix@ == "variant"@,
            nothing@ == Seq::<char>::empty(),
            texts(pieces@) == split(names@, ','),
            after_names(texts(pieces@), i as int) == Ok::<ColumnsSoFar, ColumnErrorView>(
                ColumnsSoFar { columns: columns@, last_field, expanding },
            ),
            forall|k: int| 0 <= k < i ==> (#[trigger] after_names(texts(pieces@), k)) is Ok,
        decreases pieces.len() - i,
    {
        let name = &pieces[i];
        let ghost state = ColumnsSoFar { columns: columns@, last_field, expanding };
        let ghost all = texts(pieces@);
        assert(all[i as int] == name@);
        assert(after_names(all, i + 1) == after_name(state, name@));
        if is_text(name, "...") {
            expanding = true;
        } else {
            match column_by_name(name) {
                Some(col) => {
                    columns.push(col);
                    last_field = None;
                    expanding = false;
                },
                None => {
                    if found_at(name, &prefix, 0) {
                        let number = replace_all(name, &prefix, &nothing);
                        match read_unsigned(&number, false, 0xffff_ffff) {
                            None => {
                                proof {
                                    lemma_first_error(all, i + 1, pieces.len() as int);
                                }
                                return Err(ColumnError::InvalidFieldNumber(from_chars(&number)));
                            },
                            Some(n) => {
                                if expanding {
                                    match last_field {
                                        None => {
                                            proof {
                                                lemma_first_error(all, i + 1, pieces.len() as int);
                                            }
                                            return Err(ColumnError::EllipsisWithoutStart);
                                        },
                                        Some(from) => {
                                            push_fields_between(&mut columns, from, n as u32);
                                        },
                                    }
                                }
                                columns.push(OutputColumn::EventSpecific(n as u32));
                                last_field = Some(n as u32);
                                expanding = false;
                            },
                        }
                    } else {
                        proof {
                            lemma_first_error(all, i + 1, pieces.len() as int);
                        }
                        return Err(ColumnError::UnexpectedName(from_chars(name)));
                    }
                },
            }
        }
        i += 1;
    }
    if expanding {
        Err(ColumnError::EllipsisWithoutEnd)
    } else {
        Ok(columns)
    }
}

/// Once reading has failed, reading further names fails the same way.
pub proof fn lemma_first_error(names: Seq<Seq<char>>, n: int, m: int)
    requires
        n <= m,
        after_names(names, n) is Err,
    ensures
        after_names(names, m) == after_names(names, n),
    decreases m - n,
{
    if n < m {
        lemma_first_error(names, n, m - 1);
    }
}

fn push_fields_between(columns: &mut Vec<OutputColumn>, from: u32, to: u32)
    ensures
        final(columns)@ == old(columns)@ + fields_between(from, to),
{
    if to == 0 || from >= to - 1 {
        assert(fields_between(from, to) == Seq::<OutputColumn>::empty());
        assert(columns@ + Seq::<OutputColumn>::empty() == columns@);
        return ;
    }
    let mut next: u32 = from + 1;
    while next < to
        invariant
            from + 1 <= next <= to,
            columns@ == old(columns)@ + fields_between(from, to).subrange(0, next - from - 1),
        decreases to - next,
    {
        columns.push(OutputColumn::EventSpecific(next));
        assert(fields_between(from, to).subrange(0, next - from) == fields_between(
            from,
            to,
        ).subrange(0, next - from - 1).push(OutputColumn::EventSpecific(next)));
        next += 1;
    }
    assert(fields_between(from, to).subrange(0, to - from - 1) == fields_between(from, to));
}

} // verus!
