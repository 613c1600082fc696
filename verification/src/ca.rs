//! Where the trust roots for the TLS connection to the broker are found.
use std::path::PathBuf;
use vstd::prelude::*;

verus! {

/// The owned path type of std.
#[verifier::external_type_specification]
#[verifier::external_body]
pub struct ExPathBuf(std::path::PathBuf);

/// `PathBuf::clone` gives the same path.
pub assume_specification[ <std::path::PathBuf as Clone>::clone ](path: &std::path::PathBuf) -> (r:
    std::path::PathBuf)
    ensures
        r == *path,
;

/// Where to find the trust roots.
#[derive(Debug)]
pub enum CaLocation {
    /// A PEM file with one or more CA certificates.
    File(PathBuf),
    /// A directory of PEM-encoded CA certificates, under hashed names.
    Path(PathBuf),
}

/// A path, and what the file system says of it.
#[derive(Debug)]
pub struct ProbedPath {
    pub path: PathBuf,
    pub is_dir: bool,
    pub exists: bool,
}

/// Why no trust roots were found.
#[derive(Debug)]
pub enum CaError {
    /// The configured location does not exist.
    Missing(PathBuf),
    /// The location in the environment could not be read.
    Environment(String),
    /// None is configured, and the system has none in the usual places.
    NoSystemBundle,
}

/// The arguments of a client's TLS setup that name the trust roots.
#[derive(Debug)]
pub struct TlsRoots<'a> {
    pub ca_file: Option<&'a PathBuf>,
    pub ca_path: Option<&'a PathBuf>,
}

impl CaLocation {
    /// The TLS setup for this location: it goes in as a file or as a
    /// directory, and the other is left out.
    pub fn configure(&self) -> (r: TlsRoots<'_>)
        ensures
            match self {
                CaLocation::File(file) => r.ca_file == Some(file) && r.ca_path is None,
                CaLocation::Path(dir) => r.ca_file is None && r.ca_path == Some(dir),
            },
    {
        match self {
            CaLocation::File(file) => TlsRoots { ca_file: Some(file), ca_path: None },
            CaLocation::Path(dir) => TlsRoots { ca_file: None, ca_path: Some(dir) },
        }
    }
}

impl Clone for CaLocation {
    fn clone(&self) -> (r: Self)
        ensures
            r == *self,
    {
        match self {
            CaLocation::File(file) => CaLocation::File(file.clone()),
            CaLocation::Path(dir) => CaLocation::Path(dir.clone()),
        }
    }
}

/// What a configured location amounts to.
pub open spec fn classified(probed: ProbedPath) -> Result<CaLocation, CaError> {
    if probed.is_dir {
        Ok(CaLocation::Path(probed.path))
    } else if probed.exists {
        Ok(CaLocation::File(probed.path))
    } else {
        Err(CaError::Missing(probed.path))
    }
}

/// The first file of a list that exists.
pub open spec fn first_existing(files: Seq<ProbedPath>) -> Option<PathBuf>
    decreases files.len(),
{
    if files.len() == 0 {
        None
    } else if files[0].exists {
        Some(files[0].path)
    } else {
        first_existing(files.drop_first())
    }
}

/// The location to use: an explicit one first, then the one in the
/// environment, then the first system file that exists, then the system
/// directory.
pub open spec fn resolved(
    override_path: Option<ProbedPath>,
    env_path: Result<Option<ProbedPath>, String>,
    system_files: Seq<ProbedPath>,
    system_dir: ProbedPath,
) -> Result<CaLocation, CaError> {
    match (override_path, env_path) {
        (Some(probed), _) => classified(probed),
        (None, Err(reason)) => Err(CaError::Environment(reason)),
        (None, Ok(Some(probed))) => classified(probed),
        (None, Ok(None)) => match first_existing(system_files) {
            Some(file) => Ok(CaLocation::File(file)),
            None => if system_dir.is_dir {
                Ok(CaLocation::Path(system_dir.path))
            } else {
                Err(CaError::NoSystemBundle)
            },
        },
    }
}

/// Takes a configured location as a directory or as a file.
pub fn classify_ca(probed: ProbedPath) -> (r: Result<CaLocation, CaError>)
    ensures
        r == classified(probed),
{
    if probed.is_dir {
        Ok(CaLocation::Path(probed.path))
    } else if probed.exists {
        Ok(CaLocation::File(probed.path))
    } else {
        Err(CaError::Missing(probed.path))
    }
}

/// The variable of the environment that names the location.
pub const CA_VARIABLE: &'static str = "GOVEE_MQTT_PLATFORM_CA";

/// The directory of hashed certificates to fall back to.
pub const SYSTEM_CA_DIR: &'static str = "/etc/ssl/certs";

/// The places in which systems keep their CA bundle, in the order in which
/// they are tried.
pub fn system_ca_files() -> (r: Vec<&'static str>)
    ensures
        r@.len() == 3,
        r@[0]@ == "/etc/ssl/certs/ca-certificates.crt"@,
        r@[1]@ == "/etc/pki/tls/certs/ca-bundle.crt"@,
        r@[2]@ == "/etc/ssl/cert.pem"@,
{
    let mut files: Vec<&'static str> = Vec::new();
    // Debian, Ubuntu, distroless
    files.push("/etc/ssl/certs/ca-certificates.crt");
    // RHEL, Fedora, CentOS
    files.push("/etc/pki/tls/certs/ca-bundle.crt");
    // Alpine, macOS, BSD
    files.push("/etc/ssl/cert.pem");
    files
}

/// Finds the trust roots. `system_files` are the files of
/// [`system_ca_files`], in their order, and `system_dir` is
/// [`SYSTEM_CA_DIR`].
pub fn resolve_ca_location(
    override_path: Option<ProbedPath>,
    env_path: Result<Option<ProbedPath>, String>,
    system_files: Vec<ProbedPath>,
    system_dir: ProbedPath,
) -> (r: Result<CaLocation, CaError>)
    ensures
        r == resolved(override_path, env_path, system_files@, system_dir),
{
    if let Some(probed) = override_path {
        return classify_ca(probed);
    }
    match env_path {
        Err(reason) => {
            return Err(CaError::Environment(reason));
        },
        Ok(Some(probed)) => {
            return classify_ca(probed);
        },
        Ok(None) => {},
    }
    let mut files: Vec<ProbedPath> = system_files;
    let ghost all = files@;
    while files.len() > 0
        invariant
            override_path is None,
            env_path matches Ok(None),
            all == system_files@,
            first_existing(all) == first_existing(files@),
        decreases files@.len(),
    {
        let ghost rest = files@;
        let candidate = files.remove(0);
        assert(files@ == rest.drop_first());
        if candidate.exists {
            return Ok(CaLocation::File(candidate.path));
        }
    }
    if system_dir.is_dir {
        return Ok(CaLocation::Path(system_dir.path));
    }
    Err(CaError::NoSystemBundle)
}

/// An explicit location wins over the environment and the system.
pub proof fn override_wins(
    probed: ProbedPath,
    env_path: Result<Option<ProbedPath>, String>,
    system_files: Seq<ProbedPath>,
    system_dir: ProbedPath,
)
    ensures
        resolved(Some(probed), env_path, system_files, system_dir) == classified(probed),
{
}

/// A location in the environment wins over the system.
pub proof fn environment_wins_over_system(
    probed: ProbedPath,
    system_files: Seq<ProbedPath>,
    system_dir: ProbedPath,
)
    ensures
        resolved(None, Ok(Some(probed)), system_files, system_dir) == classified(probed),
{
}

/// The first file that exists is the one with the least index.
pub proof fn first_existing_is_the_least(files: Seq<ProbedPath>, i: int)
    requires
        0 <= i < files.len(),
        files[i].exists,
        forall|j: int| 0 <= j < i ==> !(#[trigger] files[j]).exists,
    ensures
        first_existing(files) == Some(files[i].path),
    decreases i,
{
    if i > 0 {
        assert(!files[0].exists);
        assert(files.drop_first()[i - 1] == files[i]);
        assert forall|j: int| 0 <= j < i - 1 implies !(#[trigger] files.drop_first()[j]).exists by {
            assert(files.drop_first()[j] == files[j + 1]);
        }
        first_existing_is_the_least(files.drop_first(), i - 1);
    }
}

/// Where no file exists there is no first one.
pub proof fn no_file_exists(files: Seq<ProbedPath>)
    requires
        forall|i: int| 0 <= i < files.len() ==> !(#[trigger] files[i]).exists,
    ensures
        first_existing(files) is None,
    decreases files.len(),
{
    if files.len() > 0 {
        assert(!files[0].exists);
        assert forall|i: int| 0 <= i < files.drop_first().len() implies !(
        #[trigger] files.drop_first()[i]).exists by {
            assert(files.drop_first()[i] == files[i + 1]);
        }
        no_file_exists(files.drop_first());
    }
}

/// Whether the file system bears a location out: there is a file, or there is
/// a directory, at that path.
pub open spec fn borne_out(location: CaLocation, probed: ProbedPath) -> bool {
    match location {
        CaLocation::File(file) => probed.path == file && probed.exists,
        CaLocation::Path(dir) => probed.path == dir && probed.is_dir,
    }
}

/// A location that is returned is one of those that were probed, and it was
/// found there.
pub proof fn returned_location_exists(
    override_path: Option<ProbedPath>,
    env_path: Result<Option<ProbedPath>, String>,
    system_files: Seq<ProbedPath>,
    system_dir: ProbedPath,
)
    requires
        resolved(override_path, env_path, system_files, system_dir) is Ok,
    ensures
        ({
            let location = resolved(override_path, env_path, system_files, system_dir)->Ok_0;
            ||| override_path matches Some(probed) && borne_out(location, probed)
            ||| env_path matches Ok(Some(probed)) && borne_out(location, probed)
            ||| exists|i: int|
                0 <= i < system_files.len() && borne_out(location, #[trigger] system_files[i])
            ||| borne_out(location, system_dir)
        }),
{
    if override_path is None && env_path matches Ok(None) {
        if exists|i: int| 0 <= i < system_files.len() && (#[trigger] system_files[i]).exists {
            let i = lemma_least_existing(system_files);
            first_existing_is_the_least(system_files, i);
            assert(borne_out(CaLocation::File(system_files[i].path), system_files[i]));
        } else {
            no_file_exists(system_files);
        }
    }
}

/// Of the files that exist, one has the least index.
proof fn lemma_least_existing(files: Seq<ProbedPath>) -> (i: int)
    requires
        exists|i: int| 0 <= i < files.len() && (#[trigger] files[i]).exists,
    ensures
        0 <= i < files.len(),
        files[i].exists,
        forall|j: int| 0 <= j < i ==> !(#[trigger] files[j]).exists,
    decreases files.len(),
{
    if files[0].exists {
        0
    } else {
        let found = choose|i: int| 0 <= i < files.len() && (#[trigger] files[i]).exists;
        let rest = files.drop_first();
        assert(rest[found - 1] == files[found]);
        let i = lemma_least_existing(rest);
        assert forall|j: int| 0 <= j < i + 1 implies !(#[trigger] files[j]).exists by {
            if j > 0 {
                assert(rest[j - 1] == files[j]);
            }
        }
        i + 1
    }
}

/// A configured location is a directory if one is there, else a file if
/// anything is there, and else an error that names it.
pub proof fn locations_are_what_is_found_there(
    probed: ProbedPath,
    r: Result<CaLocation, CaError>,
)
    requires
        call_ensures(classify_ca, (probed,), r),
    ensures
        probed.is_dir ==> r == Ok::<CaLocation, CaError>(CaLocation::Path(probed.path)),
        !probed.is_dir && probed.exists ==> r == Ok::<CaLocation, CaError>(
            CaLocation::File(probed.path),
        ),
        !probed.is_dir && !probed.exists ==> r == Err::<CaLocation, CaError>(
            CaError::Missing(probed.path),
        ),
{
}

/// With an explicit location, or else one in the environment, that location
/// alone decides: it is found or it is missing, and no other is tried.
pub proof fn configured_locations_decide_alone(
    override_path: Option<ProbedPath>,
    env_path: Result<Option<ProbedPath>, String>,
    system_files: Vec<ProbedPath>,
    system_dir: ProbedPath,
    probed: ProbedPath,
    r: Result<CaLocation, CaError>,
)
    requires
        call_ensures(resolve_ca_location, (override_path, env_path, system_files, system_dir), r),
        override_path == Some(probed) || (override_path is None && env_path
            == Ok::<Option<ProbedPath>, String>(Some(probed))),
    ensures
        r is Ok <==> probed.is_dir || probed.exists,
        probed.is_dir ==> r == Ok::<CaLocation, CaError>(CaLocation::Path(probed.path)),
        !probed.is_dir && probed.exists ==> r == Ok::<CaLocation, CaError>(
            CaLocation::File(probed.path),
        ),
        r is Err ==> r == Err::<CaLocation, CaError>(CaError::Missing(probed.path)),
{
}

/// With no explicit location, one in the environment that cannot be read is an
/// error, with its reason.
pub proof fn unreadable_environment_is_an_error(
    reason: String,
    system_files: Vec<ProbedPath>,
    system_dir: ProbedPath,
    r: Result<CaLocation, CaError>,
)
    requires
        call_ensures(resolve_ca_location, (None, Err(reason), system_files, system_dir), r),
    ensures
        r == Err::<CaLocation, CaError>(CaError::Environment(reason)),
{
}

/// With nothing configured, the first system file that exists is taken, as a
/// file; without one, the system directory if it is one; and else there is
/// none.
pub proof fn system_locations_are_tried_in_order(
    system_files: Vec<ProbedPath>,
    system_dir: ProbedPath,
    i: int,
    r: Result<CaLocation, CaError>,
)
    requires
        call_ensures(resolve_ca_location, (None, Ok(None), system_files, system_dir), r),
        0 <= i <= system_files@.len(),
        forall|j: int| 0 <= j < i ==> !(#[trigger] system_files@[j]).exists,
    ensures
        i < system_files@.len() && system_files@[i].exists ==> r == Ok::<CaLocation, CaError>(
            CaLocation::File(system_files@[i].path),
        ),
        i == system_files@.len() && system_dir.is_dir ==> r == Ok::<CaLocation, CaError>(
            CaLocation::Path(system_dir.path),
        ),
        i == system_files@.len() && !system_dir.is_dir ==> r == Err::<CaLocation, CaError>(
            CaError::NoSystemBundle,
        ),
{
    if i < system_files@.len() {
        if system_files@[i].exists {
            first_existing_is_the_least(system_files@, i);
        }
    } else {
        no_file_exists(system_files@);
    }
}

/// A location goes into the TLS setup once: as a file or as a directory.
pub proof fn locations_are_set_up_once(location: &CaLocation, r: TlsRoots<'_>)
    requires
        call_ensures(CaLocation::configure, (location,), r),
    ensures
        r.ca_file is Some <==> location is File,
        r.ca_path is Some <==> location is Path,
        r.ca_file is Some ==> *location == CaLocation::File(*r.ca_file->0),
        r.ca_path is Some ==> *location == CaLocation::Path(*r.ca_path->0),
{
}

/// The names under which trust roots are looked for.
pub proof fn trust_roots_have_their_names(files: Vec<&'static str>)
    requires
        call_ensures(system_ca_files, (), files),
    ensures
        CA_VARIABLE@ == "GOVEE_MQTT_PLATFORM_CA"@,
        SYSTEM_CA_DIR@ == "/etc/ssl/certs"@,
        files@.len() == 3,
        files@[0]@ == "/etc/ssl/certs/ca-certificates.crt"@,
        files@[1]@ == "/etc/pki/tls/certs/ca-bundle.crt"@,
        files@[2]@ == "/etc/ssl/cert.pem"@,
{
}

} // verus!
