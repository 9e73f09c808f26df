use vstd::prelude::*;

verus! {

/// Why the mirror refuses its secret arguments.
#[derive(Clone, Copy, Debug, PartialEq, Eq, Structural)]
pub enum SecretArgsError {
    /// Neither a secret file nor "no secret" was asked for.
    MissingSecretChoice,
    /// "No secret" was asked for, but the secret file holds a secret.
    ConflictingSecret,
}

impl SecretArgsError {
    pub fn message(&self) -> (r: &'static str)
        ensures
            *self == SecretArgsError::MissingSecretChoice ==> r@
                == "Please give either --secret-file or --no-secret"@,
            *self == SecretArgsError::ConflictingSecret ==> r@
                == "--no-secret given with --secret-file indicating that a secret should be used"@,
    {
        match self {
            SecretArgsError::MissingSecretChoice => {
                proof {
                    reveal_strlit("Please give either --secret-file or --no-secret");
                }
                "Please give either --secret-file or --no-secret"
            },
            SecretArgsError::ConflictingSecret => {
                proof {
                    reveal_strlit(
                        "--no-secret given with --secret-file indicating that a secret should be used",
                    );
                }
                "--no-secret given with --secret-file indicating that a secret should be used"
            },
        }
    }
}

/// The secret that mirroring uses, given what loading the secret file gave
/// (`None` when no file was named) and whether "no secret" was asked for.
pub fn resolve_secret<T>(loaded: Option<Option<T>>, no_secret: bool) -> (r: Result<Option<T>, SecretArgsError>)
    ensures
        match loaded {
            None => if no_secret {
                r == Ok::<Option<T>, SecretArgsError>(None)
            } else {
                r == Err::<Option<T>, SecretArgsError>(SecretArgsError::MissingSecretChoice)
            },
            Some(None) => r == Ok::<Option<T>, SecretArgsError>(None),
            Some(Some(t)) => if no_secret {
                r == Err::<Option<T>, SecretArgsError>(SecretArgsError::ConflictingSecret)
            } else {
                r == Ok::<Option<T>, SecretArgsError>(Some(t))
            },
        },
{
    match loaded {
        None => if no_secret {
            Ok(None)
        } else {
            Err(SecretArgsError::MissingSecretChoice)
        },
        Some(secret) => match secret {
            Some(t) => if no_secret {
                Err(SecretArgsError::ConflictingSecret)
            } else {
                Ok(Some(t))
            },
            None => Ok(None),
        },
    }
}

/// Rewrites a genesis records file so that this tool can sign for the
/// mirrored accounts.
#[derive(Debug)]
pub struct PrepareCmd {
    /// The records file to read.
    pub records_file_in: String,
    /// Where the records with mapped public keys go.
    pub records_file_out: String,
    /// Map keys without a secret: anyone can then sign for the target accounts.
    pub no_secret: bool,
    /// Where the new secret is written.
    pub secret_file_out: String,
}

/// The records mapping that `prepare` asks the host to carry out.
#[derive(Debug)]
pub struct MapRecords {
    pub records_file_in: String,
    pub records_file_out: String,
    pub use_secret: bool,
    pub secret_file_out: String,
}

impl PrepareCmd {
    /// The mapping to perform: the same files, with a secret unless "no secret" was asked for.
    pub fn run(self) -> (r: MapRecords)
        ensures
            r.records_file_in@ == self.records_file_in@,
            r.records_file_out@ == self.records_file_out@,
            r.use_secret == !self.no_secret,
            r.secret_file_out@ == self.secret_file_out@,
    {
        MapRecords {
            records_file_in: self.records_file_in,
            records_file_out: self.records_file_out,
            use_secret: !self.no_secret,
            secret_file_out: self.secret_file_out,
        }
    }
}

} // verus!
