use vstd::prelude::*;

verus! {

/// Port the server listens on when no `--port` is given.
pub const DEFAULT_PORT: u16 = 1334;

/// Address the server binds to when no `--address` is given: `127.0.0.1`.
pub open spec fn default_address_spec() -> Seq<char> {
    seq!['1', '2', '7', '.', '0', '.', '0', '.', '1']
}

/// The extension that an input module must carry: `wasm`.
pub open spec fn wasm_extension_spec() -> Seq<char> {
    seq!['w', 'a', 's', 'm']
}

/// `ext` stands in `path` right after a `.`, and holds no `.` itself.
pub open spec fn follows_a_dot(path: Seq<char>, ext: Seq<char>) -> bool {
    &&& !ext.contains('.')
    &&& exists|i: int|
        0 < i && i + ext.len() <= path.len() && path[i - 1] == '.' && #[trigger] path.subrange(
            i,
            i + ext.len(),
        ) == ext
}

/// A path in the form that every platform splits alike: no `\\`, no `:`,
/// and no leading `//`.
pub open spec fn plain_path(path: Seq<char>) -> bool {
    &&& !path.contains('\\')
    &&& !path.contains(':')
    &&& !(path.len() >= 2 && path[0] == '/' && path[1] == '/')
}

/// A plain path whose file name ends in `.` and then `ext`, with something
/// other than a separator before that dot: `ext` is the file's extension.
pub open spec fn plain_file_with_extension(path: Seq<char>, ext: Seq<char>) -> bool {
    &&& plain_path(path)
    &&& ext.len() > 0
    &&& !ext.contains('.')
    &&& !ext.contains('/')
    &&& path.len() >= ext.len() + 2
    &&& path[path.len() - ext.len() - 1] == '.'
    &&& path[path.len() - ext.len() - 2] != '/'
    &&& path.subrange(path.len() - ext.len(), path.len() as int) == ext
}

/// A plain path whose file name is a `.` and then `name`, with no other `.`
/// in it (`.wasm`, `dir/.wasm`): such a file has no extension.
pub open spec fn plain_dot_file(path: Seq<char>, name: Seq<char>) -> bool {
    &&& plain_path(path)
    &&& name.len() > 0
    &&& !name.contains('.')
    &&& !name.contains('/')
    &&& path.len() >= name.len() + 1
    &&& path.subrange(path.len() - name.len() - 1, path.len() as int) == seq!['.'] + name
    &&& (path.len() == name.len() + 1 || path[path.len() - name.len() - 2] == '/')
}

/// The address used when none is given.
pub fn default_address() -> (r: String)
    ensures
        r@ == default_address_spec(),
{
    proof {
        reveal_strlit("127.0.0.1");
    }
    let r = String::from_str("127.0.0.1");
    assert(r@ =~= default_address_spec());
    r
}

/// The command line as the tool reads it, with the defaults filled in.
pub struct CliArgs {
    pub port: u16,
    pub address: String,
    pub wasm_file: String,
}

impl CliArgs {
    /// Builds the arguments from the flags as given, an omitted flag taking
    /// its default.
    pub fn from_flags(port: Option<u16>, address: Option<String>, wasm_file: String) -> (r: CliArgs)
        ensures
            r.port == (match port {
                Some(p) => p,
                None => DEFAULT_PORT,
            }),
            r.address@ == (match address {
                Some(a) => a@,
                None => default_address_spec(),
            }),
            r.wasm_file@ == wasm_file@,
    {
        let port = match port {
            Some(p) => p,
            None => DEFAULT_PORT,
        };
        let address = match address {
            Some(a) => a,
            None => default_address(),
        };
        CliArgs { port, address, wasm_file }
    }
}

/// What the server is started with.
pub struct Options {
    pub title: String,
    pub address: String,
    pub port: u16,
}

/// A validated request to generate bindings for a module and serve them.
pub struct Launch {
    pub options: Options,
    pub wasm_file: String,
}

/// Why the tool refuses to start.
#[derive(PartialEq, Eq, Structural, Debug, Clone, Copy)]
pub enum LaunchError {
    /// The input path does not end in a `.wasm` extension.
    NotWasm,
}

impl LaunchError {
    /// The text shown to the user.
    pub fn message(&self) -> (r: String)
        ensures
            r@ == "expected to be run with a wasm target"@,
    {
        match self {
            LaunchError::NotWasm => String::from_str("expected to be run with a wasm target"),
        }
    }
}

/// Whether a path's extension, as the path library reports it, marks a
/// WebAssembly module.
pub fn is_wasm_extension(extension: &Option<String>) -> (r: bool)
    ensures
        r == (extension matches Some(e) && e@ == wasm_extension_spec()),
{
    proof {
        reveal_strlit("wasm");
    }
    match extension {
        Some(e) => {
            let wasm = String::from_str("wasm");
            assert(wasm@ =~= wasm_extension_spec());
            *e == wasm
        },
        None => false,
    }
}

/// Decides, from the arguments and the extension of the input path, whether
/// the tool goes on to binding generation, and with what configuration.
/// Anything but a `wasm` extension ends the run before that step.
pub fn plan_launch(args: CliArgs, title: String, extension: Option<String>) -> (r: Result<
    Launch,
    LaunchError,
>)
    ensures
        r is Err <==> !(extension matches Some(e) && e@ == wasm_extension_spec()),
        r matches Err(err) ==> err == LaunchError::NotWasm,
        r matches Ok(l) ==> {
            &&& l.options.port == args.port
            &&& l.options.address@ == args.address@
            &&& l.options.title@ == title@
            &&& l.wasm_file@ == args.wasm_file@
        },
{
    if !is_wasm_extension(&extension) {
        return Err(LaunchError::NotWasm);
    }
    let options = Options { title, address: args.address, port: args.port };
    Ok(Launch { options, wasm_file: args.wasm_file })
}

/// Relies on std::path::Path::extension: the part of the file name after its
/// final `.`, so on a plain path ending in `name.ext` it is `ext`; absent where
/// the path holds no `.` at all, or where the file name begins with its only `.`.
#[verifier::external_body]
fn path_extension(path: &str) -> (r: Option<String>)
    ensures
        !path@.contains('.') ==> r is None,
        r matches Some(e) ==> follows_a_dot(path@, e@),
        forall|x: Seq<char>| #[trigger] plain_file_with_extension(path@, x) ==> r.deep_view() == Some(x),
        forall|n: Seq<char>| #[trigger] plain_dot_file(path@, n) ==> r is None,
{
    match std::path::Path::new(path).extension() {
        Some(e) => e.to_str().map(String::from),
        None => None,
    }
}

/// Validates the input path of `args` and builds the launch configuration.
/// A plain path to a `.wasm` file is accepted; one with another extension, a
/// dot file such as `.wasm`, and a path without any `.` are refused. Whatever
/// is accepted holds `.wasm`.
pub fn prepare_launch(args: CliArgs, title: String) -> (r: Result<Launch, LaunchError>)
    ensures
        plain_file_with_extension(args.wasm_file@, wasm_extension_spec()) ==> r is Ok,
        forall|ext: Seq<char>| #[trigger]
            plain_file_with_extension(args.wasm_file@, ext) ==> (r is Ok <==> ext
                == wasm_extension_spec()),
        forall|name: Seq<char>| #[trigger]
            plain_dot_file(args.wasm_file@, name) ==> r == Err::<Launch, LaunchError>(
                LaunchError::NotWasm,
            ),
        !args.wasm_file@.contains('.') ==> r == Err::<Launch, LaunchError>(LaunchError::NotWasm),
        r matches Err(err) ==> err == LaunchError::NotWasm,
        r matches Ok(l) ==> {
            &&& follows_a_dot(args.wasm_file@, wasm_extension_spec())
            &&& l.options.port == args.port
            &&& l.options.address@ == args.address@
            &&& l.options.title@ == title@
            &&& l.wasm_file@ == args.wasm_file@
        },
{
    let extension = path_extension(args.wasm_file.as_str());
    plan_launch(args, title, extension)
}

} // verus!
