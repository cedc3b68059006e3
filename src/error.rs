use vstd::prelude::*;

use crate::value::{
    decimal, index_text, key_text, data_type_text, uuid_text, DataType, Index, PrimaryKey,
};
use vstd::string::StringExecFns;

verus! {

/// Everything that can go wrong while writing to or reading from a table.
#[derive(Debug, PartialEq, Eq)]
pub enum VirtualTableError {
    /// A row position outside of a column.
    InvalidRowIndex(Index),
    /// Column, the type it declares, the type of the rejected cell.
    InvalidDataType(String, DataType, DataType),
    /// A row that holds two entries for one column.
    DuplicateColumnInRow(String),
    /// A row was created with a key that is already taken.
    DuplicatePrimaryKey(PrimaryKey),
    /// A name that no column of the table carries.
    UnknownColumn(String),
    /// A key under which no row is stored.
    UnknownPrimaryKey(PrimaryKey),
    /// A null written to a column that does not accept nulls.
    InvalidNullValue(String),
}

/// The sentence that explains an error.
pub open spec fn message(e: VirtualTableError) -> Seq<char> {
    match e {
        VirtualTableError::InvalidRowIndex(i) => "Unable to find row with specified index of '"@
            + decimal(i as int) + "'"@,
        VirtualTableError::InvalidDataType(c, required, provided) => "Invalid data type for column "@
            + c@ + ". Required is "@ + data_type_text(required) + " but "@ + data_type_text(provided)
            + " was provided."@,
        VirtualTableError::DuplicateColumnInRow(c) => "A cell for column "@ + c@
            + " is already in this row."@,
        VirtualTableError::DuplicatePrimaryKey(k) => "Can't create a new row with primary key "@
            + uuid_text(k) + " since a row with this key already exists."@,
        VirtualTableError::UnknownColumn(c) => "Didn't find a column with name "@ + c@,
        VirtualTableError::UnknownPrimaryKey(k) => "Did not find a row with the primary key of "@
            + uuid_text(k),
        VirtualTableError::InvalidNullValue(c) => "Column "@ + c@ + " does not accept NULL values."@,
    }
}

impl VirtualTableError {
    /// The sentence that explains this error.
    pub fn to_text(&self) -> (r: String)
        ensures
            r@ == message(*self),
    {
        match self {
            VirtualTableError::InvalidRowIndex(i) => {
                proof {
                    reveal_strlit("Unable to find row with specified index of '");
                    reveal_strlit("'");
                }
                let mut r = "Unable to find row with specified index of '".to_owned();
                r.append(index_text(*i).as_str());
                r.append("'");
                r
            },
            VirtualTableError::InvalidDataType(c, required, provided) => {
                proof {
                    reveal_strlit("Invalid data type for column ");
                    reveal_strlit(". Required is ");
                    reveal_strlit(" but ");
                    reveal_strlit(" was provided.");
                }
                let mut r = "Invalid data type for column ".to_owned();
                r.append(c.as_str());
                r.append(". Required is ");
                r.append(required.to_text().as_str());
                r.append(" but ");
                r.append(provided.to_text().as_str());
                r.append(" was provided.");
                r
            },
            VirtualTableError::DuplicateColumnInRow(c) => {
                proof {
                    reveal_strlit("A cell for column ");
                    reveal_strlit(" is already in this row.");
                }
                let mut r = "A cell for column ".to_owned();
                r.append(c.as_str());
                r.append(" is already in this row.");
                r
            },
            VirtualTableError::DuplicatePrimaryKey(k) => {
                proof {
                    reveal_strlit("Can't create a new row with primary key ");
                    reveal_strlit(" since a row with this key already exists.");
                }
                let mut r = "Can't create a new row with primary key ".to_owned();
                r.append(key_text(*k).as_str());
                r.append(" since a row with this key already exists.");
                r
            },
            VirtualTableError::UnknownColumn(c) => {
                proof {
                    reveal_strlit("Didn't find a column with name ");
                }
                let mut r = "Didn't find a column with name ".to_owned();
                r.append(c.as_str());
                r
            },
            VirtualTableError::UnknownPrimaryKey(k) => {
                proof {
                    reveal_strlit("Did not find a row with the primary key of ");
                }
                let mut r = "Did not find a row with the primary key of ".to_owned();
                r.append(key_text(*k).as_str());
                r
            },
            VirtualTableError::InvalidNullValue(c) => {
                proof {
                    reveal_strlit("Column ");
                    reveal_strlit(" does not accept NULL values.");
                }
                let mut r = "Column ".to_owned();
                r.append(c.as_str());
                r.append(" does not accept NULL values.");
                r
            },
        }
    }
}

} // verus!
