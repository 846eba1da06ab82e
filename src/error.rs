use vstd::prelude::*;

verus! {

/// Failure of a command handed to the display layer.
#[derive(Debug)]
pub enum Error {
    /// An underlying query or connection failure, with the store's message.
    Sql(String),
    /// The named database has not been loaded.
    DatabaseNotLoaded(String),
}

/// The text shown for an error.
pub open spec fn message_of(e: Error) -> Seq<char> {
    match e {
        Error::Sql(m) => m@,
        Error::DatabaseNotLoaded(name) => "database "@ + name@ + " not loaded"@,
    }
}

impl Error {
    /// The text shown for this error; a storage error shows the store's message as is.
    pub fn message(&self) -> (r: String)
        ensures
            r@ == message_of(*self),
    {
        match self {
            Error::Sql(m) => m.clone(),
            Error::DatabaseNotLoaded(name) => {
                let mut r = String::from_str("database ");
                r.append(name.as_str());
                r.append(" not loaded");
                r
            },
        }
    }
}

} // verus!
