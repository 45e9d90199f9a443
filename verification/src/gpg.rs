//! The `gpg` invocations that requests need, and what their output means.

use vstd::prelude::*;
use vstd::string::*;
use crate::text::{lossy_text, texts, utf8_lossy};

verus! {

/// A `gpg` operation that a request asks for.
pub enum GpgJob {
    /// Clear-sign `challenge` with the key of `email`.
    Sign { challenge: String, email: String },
    /// Encrypt `plaintext` for `recipient`, or, when `public_key` is not
    /// empty, for the armored key it holds.
    Encrypt { recipient: String, public_key: String, plaintext: String },
    /// Decrypt `ciphertext`.
    Decrypt { ciphertext: String },
    /// Add an encryption subkey of algorithm `algo`, expiring at `expire`,
    /// to the key `target` (a fingerprint or an email).
    AddSubkey { target: String, algo: String, expire: String },
}

/// How a `gpg` run went: it could not be run (or fed, or waited for), with
/// the error's text; or it exited, with its status and what it printed.
pub enum GpgRun {
    NotRun(String),
    Exited { success: bool, stdout: Vec<u8>, stderr: Vec<u8> },
}

/// The arguments `gpg` is run with for `job`; `key_file` is the file that
/// holds the recipient's key, used when the job carries one.
pub open spec fn job_args(job: GpgJob, key_file: Seq<char>) -> Seq<Seq<char>> {
    match job {
        GpgJob::Sign { email, .. } => seq!["--clear-sign"@, "--local-user"@, email@],
        GpgJob::Encrypt { recipient, public_key, .. } => if public_key@.len() > 0 {
            seq!["--encrypt"@, "--armor"@, "--trust-model"@, "always"@, "--recipient-file"@, key_file]
        } else {
            seq!["--encrypt"@, "--armor"@, "--trust-model"@, "always"@, "--recipient"@, recipient@]
        },
        GpgJob::Decrypt { .. } => seq!["--decrypt"@, "--trust-model"@, "always"@],
        GpgJob::AddSubkey { target, algo, expire } => seq![
            "--batch"@,
            "--no-tty"@,
            "--quick-add-key"@,
            target@,
            algo@,
            "encrypt"@,
            expire@,
        ],
    }
}

/// What `gpg` reads on its standard input for `job`.
pub open spec fn job_input(job: GpgJob) -> Option<Seq<char>> {
    match job {
        GpgJob::Sign { challenge, .. } => Some(challenge@),
        GpgJob::Encrypt { plaintext, .. } => Some(plaintext@),
        GpgJob::Decrypt { ciphertext } => Some(ciphertext@),
        GpgJob::AddSubkey { .. } => None,
    }
}

/// Whether `job` holds the `gpg` lock while it runs: every job does, so
/// that no two `gpg` runs of the host overlap.
pub open spec fn job_locks(job: GpgJob) -> bool {
    true
}

/// The text put before `gpg`'s error output when `job` fails.
pub open spec fn error_prefix(job: GpgJob) -> Seq<char> {
    match job {
        GpgJob::Sign { .. } => "GPG Sign Error: "@,
        GpgJob::Encrypt { .. } => "GPG Encrypt Error: "@,
        GpgJob::Decrypt { .. } => "GPG Decrypt Error: "@,
        GpgJob::AddSubkey { .. } => "GPG Add Subkey Error: "@,
    }
}

/// What a run of `job` yields: the error text when it could not run;
/// otherwise, on success, what it printed (for a new subkey a fixed
/// message), and on failure the job's error prefix and what it printed on
/// its error output.
pub open spec fn job_result(job: GpgJob, run: GpgRun) -> Result<Seq<char>, Seq<char>> {
    match run {
        GpgRun::NotRun(e) => Err(e@),
        GpgRun::Exited { success, stdout, stderr } => if success {
            if job is AddSubkey {
                Ok("Subkey added successfully"@)
            } else {
                Ok(lossy_text(stdout@))
            }
        } else {
            Err(error_prefix(job) + lossy_text(stderr@))
        },
    }
}

/// The result of a run of `job`, as a result of strings.
pub open spec fn result_view(r: Result<String, String>) -> Result<Seq<char>, Seq<char>> {
    match r {
        Ok(s) => Ok(s@),
        Err(e) => Err(e@),
    }
}

/// Where the `gpg` executable is looked for on Windows, in order.
pub open spec fn windows_gpg_candidates_text() -> Seq<Seq<char>> {
    seq![
        "C:\\Program Files (x86)\\GnuPG\\bin\\gpg.exe"@,
        "C:\\Program Files\\GnuPG\\bin\\gpg.exe"@,
        "C:\\Program Files (x86)\\Gpg4win\\bin\\gpg.exe"@,
        "C:\\Program Files\\Gpg4win\\bin\\gpg.exe"@,
        "C:\\Program Files (x86)\\Gpg4win\\gpg.exe"@,
        "C:\\Program Files\\Gpg4win\\gpg.exe"@,
    ]
}

/// The `gpg` command given the candidate paths with whether each exists:
/// the first that exists, else `gpg` (found on the `PATH`).
pub open spec fn first_existing(found: Seq<(Seq<char>, bool)>) -> Seq<char>
    decreases found.len(),
{
    if found.len() == 0 {
        "gpg"@
    } else if found[0].1 {
        found[0].0
    } else {
        first_existing(found.drop_first())
    }
}

/// Where the `gpg` executable is looked for on Windows, in order.
pub fn windows_gpg_candidates() -> (paths: Vec<String>)
    ensures
        texts(paths@) == windows_gpg_candidates_text(),
{
    let paths = vec![
        "C:\\Program Files (x86)\\GnuPG\\bin\\gpg.exe".to_owned(),
        "C:\\Program Files\\GnuPG\\bin\\gpg.exe".to_owned(),
        "C:\\Program Files (x86)\\Gpg4win\\bin\\gpg.exe".to_owned(),
        "C:\\Program Files\\Gpg4win\\bin\\gpg.exe".to_owned(),
        "C:\\Program Files (x86)\\Gpg4win\\gpg.exe".to_owned(),
        "C:\\Program Files\\Gpg4win\\gpg.exe".to_owned(),
    ];
    assert(texts(paths@) =~= windows_gpg_candidates_text());
    paths
}

/// The `gpg` command: the first candidate path that exists, else `gpg`.
pub fn gpg_command(found: &Vec<(String, bool)>) -> (cmd: String)
    ensures
        cmd@ == first_existing(found@.map_values(|p: (String, bool)| (p.0@, p.1))),
{
    let ghost v = found@.map_values(|p: (String, bool)| (p.0@, p.1));
    let mut i: usize = 0;
    assert(v.skip(0) =~= v);
    while i < found.len()
        invariant
            v == found@.map_values(|p: (String, bool)| (p.0@, p.1)),
            i <= found@.len(),
            first_existing(v) == first_existing(v.skip(i as int)),
        decreases found@.len() - i,
    {
        assert(v.skip(i as int)[0] == v[i as int]);
        assert(v.skip(i as int).drop_first() =~= v.skip(i + 1));
        if found[i].1 {
            return found[i].0.clone();
        }
        i = i + 1;
    }
    assert(v.skip(i as int) =~= Seq::<(Seq<char>, bool)>::empty());
    "gpg".to_owned()
}

/// The arguments for listing the secret keys in a parseable form.
pub fn list_keys_args() -> (args: Vec<String>)
    ensures
        texts(args@) == seq!["--list-secret-keys"@, "--with-colons"@],
{
    let args = vec!["--list-secret-keys".to_owned(), "--with-colons".to_owned()];
    assert(texts(args@) =~= seq!["--list-secret-keys"@, "--with-colons"@]);
    args
}

/// The arguments for exporting the armored public key `fingerprint`.
pub fn export_args(fingerprint: &String) -> (args: Vec<String>)
    ensures
        texts(args@) == seq!["--export"@, "--armor"@, fingerprint@],
{
    let args = vec!["--export".to_owned(), "--armor".to_owned(), fingerprint.clone()];
    assert(texts(args@) =~= seq!["--export"@, "--armor"@, fingerprint@]);
    args
}

/// An exported public key: what `gpg` printed when the export succeeded,
/// else the empty text.
pub fn exported_key(run: GpgRun) -> (key: String)
    ensures
        key@ == match run {
            GpgRun::Exited { success: true, stdout, .. } => lossy_text(stdout@),
            _ => Seq::empty(),
        },
        match run {
            GpgRun::Exited { success: true, stdout, .. } => vstd::utf8::valid_utf8(stdout@) ==> key@
                == vstd::utf8::decode_utf8(stdout@),
            _ => true,
        },
{
    match run {
        GpgRun::Exited { success, stdout, .. } => if success {
            utf8_lossy(stdout.as_slice())
        } else {
            String::new()
        },
        GpgRun::NotRun(_) => String::new(),
    }
}

impl GpgJob {
    /// The arguments `gpg` is run with; `key_file` is the file that holds
    /// the recipient's key, used only when the job carries one.
    pub fn args(&self, key_file: &String) -> (args: Vec<String>)
        ensures
            texts(args@) == job_args(*self, key_file@),
    {
        let args = match self {
            GpgJob::Sign { email, .. } => vec![
                "--clear-sign".to_owned(),
                "--local-user".to_owned(),
                email.clone(),
            ],
            GpgJob::Encrypt { recipient, public_key, .. } => {
                let (flag, who) = if public_key.as_str().is_empty() {
                    ("--recipient", recipient.clone())
                } else {
                    ("--recipient-file", key_file.clone())
                };
                vec![
                    "--encrypt".to_owned(),
                    "--armor".to_owned(),
                    "--trust-model".to_owned(),
                    "always".to_owned(),
                    flag.to_owned(),
                    who,
                ]
            },
            GpgJob::Decrypt { .. } => vec![
                "--decrypt".to_owned(),
                "--trust-model".to_owned(),
                "always".to_owned(),
            ],
            GpgJob::AddSubkey { target, algo, expire } => vec![
                "--batch".to_owned(),
                "--no-tty".to_owned(),
                "--quick-add-key".to_owned(),
                target.clone(),
                algo.clone(),
                "encrypt".to_owned(),
                expire.clone(),
            ],
        };
        assert(texts(args@) =~= job_args(*self, key_file@));
        args
    }

    /// The armored key to put in the recipient's key file: present exactly
    /// when this is an encryption whose public key is not empty.
    pub fn key_file_contents(&self) -> (key: Option<String>)
        ensures
            match key {
                Some(k) => self matches GpgJob::Encrypt { public_key, .. } && public_key@.len() > 0
                    && k@ == public_key@,
                None => !(self matches GpgJob::Encrypt { public_key, .. } && public_key@.len() > 0),
            },
    {
        match self {
            GpgJob::Encrypt { public_key, .. } => if public_key.as_str().is_empty() {
                None
            } else {
                Some(public_key.clone())
            },
            _ => None,
        }
    }

    /// What `gpg` reads on its standard input.
    pub fn input(&self) -> (text: Option<String>)
        ensures
            match text {
                Some(t) => job_input(*self) == Some(t@),
                None => job_input(*self) is None,
            },
    {
        match self {
            GpgJob::Sign { challenge, .. } => Some(challenge.clone()),
            GpgJob::Encrypt { plaintext, .. } => Some(plaintext.clone()),
            GpgJob::Decrypt { ciphertext } => Some(ciphertext.clone()),
            GpgJob::AddSubkey { .. } => None,
        }
    }

    /// Whether the job holds the `gpg` lock while it runs.
    pub fn needs_lock(&self) -> (b: bool)
        ensures
            b == job_locks(*self),
    {
        true
    }

    /// What a run of this job yields.
    pub fn result(&self, run: GpgRun) -> (r: Result<String, String>)
        ensures
            result_view(r) == job_result(*self, run),
            match run {
                GpgRun::Exited { success, stdout, stderr } => {
                    &&& success && !(*self is AddSubkey) && vstd::utf8::valid_utf8(stdout@)
                        ==> result_view(r) == Ok::<Seq<char>, Seq<char>>(
                        vstd::utf8::decode_utf8(stdout@),
                    )
                    &&& !success && vstd::utf8::valid_utf8(stderr@) ==> result_view(r) == Err::<
                        Seq<char>,
                        Seq<char>,
                    >(error_prefix(*self) + vstd::utf8::decode_utf8(stderr@))
                },
                _ => true,
            },
    {
        match run {
            GpgRun::NotRun(e) => Err(e),
            GpgRun::Exited { success, stdout, stderr } => {
                if success {
                    if matches!(self, GpgJob::AddSubkey { .. }) {
                        Ok("Subkey added successfully".to_owned())
                    } else {
                        Ok(utf8_lossy(stdout.as_slice()))
                    }
                } else {
                    let mut msg = match self {
                        GpgJob::Sign { .. } => "GPG Sign Error: ".to_owned(),
                        GpgJob::Encrypt { .. } => "GPG Encrypt Error: ".to_owned(),
                        GpgJob::Decrypt { .. } => "GPG Decrypt Error: ".to_owned(),
                        GpgJob::AddSubkey { .. } => "GPG Add Subkey Error: ".to_owned(),
                    };
                    let detail = utf8_lossy(stderr.as_slice());
                    msg.append(detail.as_str());
                    Err(msg)
                }
            },
        }
    }
}

} // verus!
