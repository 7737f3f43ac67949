//! The TUN sidecar: its settings, its command line and where it is looked for.

use vstd::prelude::*;

use crate::platform::Platform;
use crate::text::{
    chars_of, decimal, has_space, is_space, is_whitespace, join, joined, lemma_texts_push,
    push_decimal, quote, quoted, str_texts, texts, trim, trimmed,
};

verus! {

#[derive(Debug, Clone, Copy, PartialEq, Eq, Structural)]
pub enum DnsStrategy {
    Virtual,
    OverTcp,
    Direct,
}

impl DnsStrategy {
    /// The word that stands for the strategy.
    pub open spec fn word(self) -> Seq<char> {
        match self {
            DnsStrategy::Virtual => "virtual"@,
            DnsStrategy::OverTcp => "over-tcp"@,
            DnsStrategy::Direct => "direct"@,
        }
    }

    /// The value of the sidecar's `--dns` option.
    pub fn as_tun2proxy_value(self) -> (out: &'static str)
        ensures
            out@ == self.word(),
    {
        match self {
            DnsStrategy::Virtual => "virtual",
            DnsStrategy::OverTcp => "over-tcp",
            DnsStrategy::Direct => "direct",
        }
    }

    pub fn label(self) -> (out: &'static str)
        ensures
            out@ == self.word(),
    {
        match self {
            DnsStrategy::Virtual => "virtual",
            DnsStrategy::OverTcp => "over-tcp",
            DnsStrategy::Direct => "direct",
        }
    }
}

#[derive(Debug, Clone)]
pub struct VpnConfig {
    pub tun2proxy_path: Option<String>,
    pub setup_routes: bool,
    pub bypass: Vec<String>,
    pub dns_strategy: DnsStrategy,
    pub enable_ipv6: bool,
}

impl Default for VpnConfig {
    fn default() -> (config: Self)
        ensures
            config.tun2proxy_path is None,
            config.setup_routes,
            texts(config.bypass@) == seq!["127.0.0.0/8"@, "::1/128"@],
            config.dns_strategy == DnsStrategy::Virtual,
            !config.enable_ipv6,
    {
        let mut bypass: Vec<String> = Vec::new();
        bypass.push("127.0.0.0/8".to_owned());
        bypass.push("::1/128".to_owned());
        assert(texts(bypass@) =~= seq!["127.0.0.0/8"@, "::1/128"@]);
        VpnConfig {
            tun2proxy_path: None,
            setup_routes: true,
            bypass,
            dns_strategy: DnsStrategy::Virtual,
            enable_ipv6: false,
        }
    }
}

/// How long the proxy is given before the sidecar is started beside it, in milliseconds.
pub const SIDECAR_DELAY_MILLIS: u64 = 350;

// ---------------------------------------------------------------------
// The command line
// ---------------------------------------------------------------------

/// The arguments for the ranges that bypass the tunnel; ranges that hold nothing are left out.
pub open spec fn bypass_args(bypass: Seq<Seq<char>>) -> Seq<Seq<char>>
    decreases bypass.len(),
{
    if bypass.len() == 0 {
        Seq::empty()
    } else {
        let before = bypass_args(bypass.drop_last());
        let item = trimmed(bypass.last());
        if item.len() == 0 {
            before
        } else {
            before.push("--bypass"@).push(item)
        }
    }
}

/// The arguments that the sidecar is started with.
pub open spec fn sidecar_arguments(port: u16, config: VpnConfig) -> Seq<Seq<char>> {
    let fixed = seq![
        "--proxy"@,
        "socks5://127.0.0.1:"@ + decimal(port as nat),
        "--dns"@,
        config.dns_strategy.word(),
    ];
    let routes = if config.setup_routes {
        seq!["--setup"@]
    } else {
        Seq::empty()
    };
    let ipv6 = if config.enable_ipv6 {
        seq!["--ipv6-enabled"@]
    } else {
        Seq::empty()
    };
    fixed + routes + ipv6 + bypass_args(texts(config.bypass@))
}

/// The arguments that the sidecar is started with for a proxy on `proxy_port`.
pub fn sidecar_args(proxy_port: u16, config: &VpnConfig) -> (args: Vec<String>)
    ensures
        texts(args@) == sidecar_arguments(proxy_port, *config),
{
    let mut args: Vec<String> = Vec::new();
    args.push("--proxy".to_owned());
    let mut endpoint: String = "socks5://127.0.0.1:".to_owned();
    push_decimal(&mut endpoint, proxy_port as u64);
    args.push(endpoint);
    args.push("--dns".to_owned());
    args.push(config.dns_strategy.as_tun2proxy_value().to_owned());
    assert(texts(args@) =~= seq![
        "--proxy"@,
        "socks5://127.0.0.1:"@ + decimal(proxy_port as nat),
        "--dns"@,
        config.dns_strategy.word(),
    ]);
    let ghost fixed = texts(args@);
    if config.setup_routes {
        args.push("--setup".to_owned());
        assert(texts(args@) =~= fixed + seq!["--setup"@]);
    } else {
        assert(texts(args@) =~= fixed + Seq::empty());
    }
    let ghost routed = texts(args@);
    if config.enable_ipv6 {
        args.push("--ipv6-enabled".to_owned());
        assert(texts(args@) =~= routed + seq!["--ipv6-enabled"@]);
    } else {
        assert(texts(args@) =~= routed + Seq::empty());
    }
    let ghost front = texts(args@);
    let ghost all = texts(config.bypass@);
    let mut i: usize = 0;
    assert(all.take(0) =~= Seq::empty());
    assert(texts(args@) =~= front + bypass_args(all.take(0)));
    while i < config.bypass.len()
        invariant
            i <= config.bypass@.len(),
            all == texts(config.bypass@),
            texts(args@) == front + bypass_args(all.take(i as int)),
        decreases config.bypass@.len() - i,
    {
        proof {
            assert(all.take(i + 1).drop_last() =~= all.take(i as int));
            assert(all.take(i + 1).last() == config.bypass@[i as int]@);
        }
        let item: String = trim(config.bypass[i].as_str());
        let ghost before = args@;
        if !item.as_str().is_empty() {
            let option: String = "--bypass".to_owned();
            proof {
                lemma_texts_push(before, option);
                lemma_texts_push(before.push(option), item);
            }
            args.push(option);
            args.push(item);
        }
        i += 1;
        assert(texts(args@) =~= front + bypass_args(all.take(i as int)));
    }
    assert(all.take(i as int) =~= all);
    args
}

/// An argument as it stands in the log: in quotation marks where it is empty or holds white
/// space.
pub open spec fn log_argument(value: Seq<char>) -> Seq<char> {
    if value.len() == 0 || has_space(value) {
        quoted(value)
    } else {
        value
    }
}

/// An argument as it stands in the log.
pub fn quote_arg_for_log(value: &str) -> (out: String)
    ensures
        out@ == log_argument(value@),
{
    if value.is_empty() {
        return quote(value);
    }
    let chars: Vec<char> = chars_of(value);
    let mut i: usize = 0;
    while i < chars.len()
        invariant
            i <= chars@.len(),
            chars@ == value@,
            forall|j: int| 0 <= j < i ==> !is_space(#[trigger] chars@[j]),
        decreases chars@.len() - i,
    {
        if is_whitespace(chars[i]) {
            assert(has_space(value@));
            return quote(value);
        }
        i += 1;
    }
    value.to_owned()
}

/// The arguments as they stand in the log.
pub open spec fn log_arguments(args: Seq<Seq<char>>) -> Seq<Seq<char>> {
    args.map_values(|arg: Seq<char>| log_argument(arg))
}

/// The arguments as they stand in the log.
pub fn command_args_for_log(args: &Vec<String>) -> (out: Vec<String>)
    ensures
        texts(out@) == log_arguments(texts(args@)),
{
    let mut out: Vec<String> = Vec::new();
    let mut i: usize = 0;
    while i < args.len()
        invariant
            i <= args@.len(),
            out@.len() == i,
            forall|j: int| 0 <= j < i ==> #[trigger] out@[j]@ == log_argument(args@[j]@),
        decreases args@.len() - i,
    {
        out.push(quote_arg_for_log(args[i].as_str()));
        i += 1;
    }
    assert(texts(out@) =~= log_arguments(texts(args@)));
    out
}

/// The log line that announces the sidecar.
pub fn starting_line(executable: &str, args: &Vec<String>) -> (line: String)
    ensures
        line@ == "starting TUN sidecar: "@ + executable@ + " "@ + joined(
            log_arguments(texts(args@)),
            " "@,
        ),
{
    let mut line: String = "starting TUN sidecar: ".to_owned();
    line.append(executable);
    line.append(" ");
    line.append(join(&command_args_for_log(args), " ").as_str());
    line
}

/// The log line for the sidecar that runs.
pub fn started_line(executable: &str) -> (line: String)
    ensures
        line@ == "started TUN sidecar: "@ + executable@,
{
    let mut line: String = "started TUN sidecar: ".to_owned();
    line.append(executable);
    line
}

/// The log line for a line that the sidecar printed, or for the failure to read one.
pub fn pipe_line(prefix: &str, line: Result<&str, &str>) -> (out: String)
    ensures
        out@ == match line {
            Ok(text) => prefix@ + ": "@ + text@,
            Err(error) => prefix@ + ": failed to read output: "@ + error@,
        },
{
    let mut out: String = prefix.to_owned();
    match line {
        Ok(text) => {
            out.append(": ");
            out.append(text);
        },
        Err(error) => {
            out.append(": failed to read output: ");
            out.append(error);
        },
    }
    out
}

// ---------------------------------------------------------------------
// Finding the sidecar
// ---------------------------------------------------------------------

/// The file names that the sidecar may have, the better one first.
pub open spec fn sidecar_file_names(platform: Platform) -> Seq<Seq<char>> {
    if platform == Platform::Windows {
        seq!["tun2proxy-bin.exe"@, "tun2proxy.exe"@]
    } else {
        seq!["tun2proxy-bin"@, "tun2proxy"@]
    }
}

pub fn candidate_names(platform: Platform) -> (names: Vec<&'static str>)
    ensures
        str_texts(names@) == sidecar_file_names(platform),
{
    let mut names: Vec<&'static str> = Vec::new();
    match platform {
        Platform::Windows => {
            names.push("tun2proxy-bin.exe");
            names.push("tun2proxy.exe");
        },
        _ => {
            names.push("tun2proxy-bin");
            names.push("tun2proxy");
        },
    }
    assert(str_texts(names@) =~= sidecar_file_names(platform));
    names
}

/// Whether a file name has an extension: a dot that is not its first character.
pub open spec fn has_extension(name: Seq<char>) -> bool {
    exists|i: int| 1 <= i < name.len() && #[trigger] name[i] == '.'
}

fn name_has_extension(name: &str) -> (found: bool)
    ensures
        found == has_extension(name@),
{
    let chars: Vec<char> = chars_of(name);
    let mut i: usize = 1;
    while i < chars.len()
        invariant
            1 <= i,
            chars@ == name@,
            forall|j: int| 1 <= j < i && j < chars@.len() ==> #[trigger] chars@[j] != '.',
        decreases chars@.len() - i,
    {
        if chars[i] == '.' {
            return true;
        }
        i += 1;
    }
    false
}

/// The file names tried for one sidecar name in a directory of the search path.
pub open spec fn path_names_for(
    platform: Platform,
    name: Seq<char>,
    extensions: Seq<Seq<char>>,
) -> Seq<Seq<char>> {
    if platform == Platform::Windows && !has_extension(name) {
        seq![name] + extensions.map_values(|extension: Seq<char>| name + extension)
    } else {
        seq![name]
    }
}

/// The file names tried in a directory of the search path.
pub open spec fn names_on_path(platform: Platform, extensions: Seq<Seq<char>>) -> Seq<Seq<char>> {
    path_names_for(platform, sidecar_file_names(platform)[0], extensions) + path_names_for(
        platform,
        sidecar_file_names(platform)[1],
        extensions,
    )
}

/// The file names tried in each directory of the search path, in order.
pub fn path_names(platform: Platform, extensions: &Vec<String>) -> (out: Vec<String>)
    ensures
        texts(out@) == names_on_path(platform, texts(extensions@)),
{
    let names: Vec<&'static str> = candidate_names(platform);
    assert(str_texts(names@).len() == 2);
    assert(str_texts(names@)[0] == names@[0]@ && str_texts(names@)[1] == names@[1]@);
    let mut out: Vec<String> = Vec::new();
    assert(texts(out@) =~= Seq::empty());
    push_path_names(&mut out, platform, names[0], extensions);
    push_path_names(&mut out, platform, names[1], extensions);
    assert(texts(out@) =~= names_on_path(platform, texts(extensions@)));
    out
}

fn push_path_names(
    out: &mut Vec<String>,
    platform: Platform,
    name: &str,
    extensions: &Vec<String>,
)
    ensures
        texts(final(out)@) == texts(old(out)@) + path_names_for(
            platform,
            name@,
            texts(extensions@),
        ),
{
    let ghost before = texts(out@);
    let base: String = name.to_owned();
    proof {
        lemma_texts_push(out@, base);
    }
    out.push(base);
    assert(texts(out@) =~= before + seq![name@]);
    if platform == Platform::Windows && !name_has_extension(name) {
        let ghost full = extensions@.map_values(|e: String| name@ + e@);
        let mut i: usize = 0;
        assert(texts(out@) =~= before + seq![name@] + full.take(0));
        while i < extensions.len()
            invariant
                i <= extensions@.len(),
                full == extensions@.map_values(|e: String| name@ + e@),
                texts(out@) == before + seq![name@] + full.take(i as int),
            decreases extensions@.len() - i,
        {
            let mut value: String = name.to_owned();
            value.append(extensions[i].as_str());
            proof {
                lemma_texts_push(out@, value);
                assert(full.take(i + 1) =~= full.take(i as int).push(
                    name@ + extensions@[i as int]@,
                ));
            }
            out.push(value);
            i += 1;
            assert(texts(out@) =~= before + seq![name@] + full.take(i as int));
        }
        assert(full.take(i as int) =~= texts(extensions@).map_values(
            |extension: Seq<char>| name@ + extension,
        ));
        assert(texts(out@) =~= before + path_names_for(platform, name@, texts(extensions@)));
    }
}

/// A directory to look in.
#[derive(Debug, Clone, Copy, PartialEq, Eq, Structural)]
pub enum PlaceDir {
    /// The directory of the application.
    Application,
    /// The directory `bin` in it.
    Bin,
    /// A directory of the search path, by its position there.
    OnPath(usize),
}

/// A place to look for the sidecar.
#[derive(Debug)]
pub struct Place {
    pub dir: PlaceDir,
    pub name: String,
}

impl View for Place {
    type V = (PlaceDir, Seq<char>);

    open spec fn view(&self) -> (PlaceDir, Seq<char>) {
        (self.dir, self.name@)
    }
}

/// What the places stand for.
pub open spec fn viewed(places: Seq<Place>) -> Seq<(PlaceDir, Seq<char>)> {
    places.map_values(|place: Place| place@)
}

/// The same directory with each of the names.
pub open spec fn all_in(dir: PlaceDir, names: Seq<Seq<char>>) -> Seq<(PlaceDir, Seq<char>)> {
    names.map_values(|name: Seq<char>| (dir, name))
}

/// The places in the first `dirs` directories of the search path, directory by directory.
pub open spec fn places_on_path(dirs: nat, names: Seq<Seq<char>>) -> Seq<(PlaceDir, Seq<char>)>
    decreases dirs,
{
    if dirs == 0 {
        Seq::empty()
    } else {
        places_on_path((dirs - 1) as nat, names) + all_in(
            PlaceDir::OnPath((dirs - 1) as usize),
            names,
        )
    }
}

/// The places in the order in which they are tried: the directory of the application and `bin` in
/// it, where that directory is known, and then the search path.
pub open spec fn search_order(
    platform: Platform,
    application_known: bool,
    path_dirs: nat,
    extensions: Seq<Seq<char>>,
) -> Seq<(PlaceDir, Seq<char>)> {
    (if application_known {
        all_in(PlaceDir::Application, sidecar_file_names(platform)) + all_in(
            PlaceDir::Bin,
            sidecar_file_names(platform),
        )
    } else {
        Seq::empty()
    }) + places_on_path(path_dirs, names_on_path(platform, extensions))
}

fn push_places(places: &mut Vec<Place>, dir: PlaceDir, names: &Vec<String>)
    ensures
        viewed(final(places)@) == viewed(old(places)@) + all_in(dir, texts(names@)),
{
    let ghost before = viewed(places@);
    let ghost all = all_in(dir, texts(names@));
    let mut i: usize = 0;
    assert(viewed(places@) =~= before + all.take(0));
    while i < names.len()
        invariant
            i <= names@.len(),
            all == all_in(dir, texts(names@)),
            viewed(places@) == before + all.take(i as int),
        decreases names@.len() - i,
    {
        let ghost held = places@;
        places.push(Place { dir, name: names[i].clone() });
        proof {
            assert(viewed(places@) =~= viewed(held).push(places@.last()@));
            assert(places@.last()@ == all[i as int]);
            assert(all.take(i + 1) =~= all.take(i as int).push(all[i as int]));
        }
        i += 1;
        assert(viewed(places@) =~= before + all.take(i as int));
    }
    assert(all.take(i as int) =~= all);
}

/// The places in the order in which they are tried.
pub fn search_places(
    platform: Platform,
    application_known: bool,
    path_dirs: usize,
    extensions: &Vec<String>,
) -> (places: Vec<Place>)
    ensures
        viewed(places@) == search_order(
            platform,
            application_known,
            path_dirs as nat,
            texts(extensions@),
        ),
{
    let mut places: Vec<Place> = Vec::new();
    assert(viewed(places@) =~= Seq::empty());
    if application_known {
        let files: Vec<&'static str> = candidate_names(platform);
        assert(str_texts(files@).len() == 2);
        assert(str_texts(files@)[0] == files@[0]@ && str_texts(files@)[1] == files@[1]@);
        let mut names: Vec<String> = Vec::new();
        names.push(files[0].to_owned());
        names.push(files[1].to_owned());
        assert(texts(names@) =~= sidecar_file_names(platform));
        push_places(&mut places, PlaceDir::Application, &names);
        push_places(&mut places, PlaceDir::Bin, &names);
    }
    let ghost beside = viewed(places@);
    let names: Vec<String> = path_names(platform, extensions);
    let mut dir: usize = 0;
    assert(viewed(places@) =~= beside + places_on_path(0, texts(names@)));
    while dir < path_dirs
        invariant
            dir <= path_dirs,
            viewed(places@) == beside + places_on_path(dir as nat, texts(names@)),
        decreases path_dirs - dir,
    {
        push_places(&mut places, PlaceDir::OnPath(dir), &names);
        dir += 1;
        assert(viewed(places@) =~= beside + places_on_path(dir as nat, texts(names@)));
    }
    assert(viewed(places@) =~= search_order(
        platform,
        application_known,
        path_dirs as nat,
        texts(extensions@),
    ));
    places
}

/// Where the sidecar was found.
#[derive(Debug, Clone, Copy, PartialEq, Eq, Structural)]
pub enum SidecarChoice {
    /// The configured path.
    Configured,
    /// A path is configured and nothing is there.
    ConfiguredMissing,
    /// One of the other places, by its position in the search order.
    Found(usize),
    NotFound,
}

/// Picks the sidecar. `configured` says of a configured path whether something is there;
/// `present` says it of each other place, in the order in which they are tried.
pub fn resolve_tun2proxy(configured: Option<bool>, present: &Vec<bool>) -> (choice: SidecarChoice)
    ensures
        configured == Some(true) <==> choice == SidecarChoice::Configured,
        configured == Some(false) <==> choice == SidecarChoice::ConfiguredMissing,
        choice matches SidecarChoice::Found(at) ==> {
            &&& at < present@.len()
            &&& present@[at as int]
            &&& forall|i: int| 0 <= i < at ==> !(#[trigger] present@[i])
        },
        configured is None && (exists|i: int| 0 <= i < present@.len() && #[trigger] present@[i])
            ==> choice is Found,
        choice == SidecarChoice::NotFound ==> forall|i: int|
            0 <= i < present@.len() ==> !(#[trigger] present@[i]),
{
    match configured {
        Some(true) => return SidecarChoice::Configured,
        Some(false) => return SidecarChoice::ConfiguredMissing,
        None => {},
    }
    let mut i: usize = 0;
    while i < present.len()
        invariant
            i <= present@.len(),
            configured is None,
            forall|j: int| 0 <= j < i ==> !(#[trigger] present@[j]),
        decreases present@.len() - i,
    {
        if present[i] {
            return SidecarChoice::Found(i);
        }
        i += 1;
    }
    SidecarChoice::NotFound
}

/// The message for a sidecar that cannot be used; none where one was found.
pub fn missing_sidecar_message(choice: SidecarChoice, configured: &str) -> (message: Option<String>)
    ensures
        choice == SidecarChoice::ConfiguredMissing ==> message is Some && message->0@
            == "configured tun2proxy path does not exist: "@ + configured@,
        choice == SidecarChoice::NotFound ==> message is Some && message->0@
            == "tun2proxy-bin not found beside net-combiner or on PATH; place tun2proxy-bin next to the app or set an explicit path"@,
        choice == SidecarChoice::Configured || choice is Found ==> message is None,
{
    match choice {
        SidecarChoice::ConfiguredMissing => {
            let mut text: String = "configured tun2proxy path does not exist: ".to_owned();
            text.append(configured);
            Some(text)
        },
        SidecarChoice::NotFound => Some(
            "tun2proxy-bin not found beside net-combiner or on PATH; place tun2proxy-bin next to the app or set an explicit path".to_owned(),
        ),
        _ => None,
    }
}

// ---------------------------------------------------------------------
// Laws
// ---------------------------------------------------------------------

proof fn lemma_words_differ()
    ensures
        "--setup"@ != "--ipv6-enabled"@,
        "--setup"@ != "--bypass"@,
        "--ipv6-enabled"@ != "--bypass"@,
{
    reveal_strlit("--setup");
    reveal_strlit("--ipv6-enabled");
    reveal_strlit("--bypass");
    assert("--setup"@[2] == 's' && "--bypass"@[2] == 'b' && "--ipv6-enabled"@[2] == 'i');
}

/// Where a range stands among the arguments, its option stands before it; the arguments for the
/// ranges are pairs.
proof fn lemma_bypass_pairs(bypass: Seq<Seq<char>>)
    ensures
        bypass_args(bypass).len() % 2 == 0,
        forall|i: int|
            0 <= i < bypass_args(bypass).len() && i % 2 == 0 ==> #[trigger] bypass_args(bypass)[i]
                == "--bypass"@,
    decreases bypass.len(),
{
    if bypass.len() > 0 {
        lemma_bypass_pairs(bypass.drop_last());
    }
}

/// The sidecar is told the proxy and the way names are looked up, then `--setup` exactly where
/// routes are to be set up, then `--ipv6-enabled` exactly where that is wanted, and then the
/// ranges. Each of the switches stands whatever the other settings are.
pub proof fn law_switches_of_the_sidecar(port: u16, config: VpnConfig)
    ensures
        ({
            let args = sidecar_arguments(port, config);
            let routes: int = if config.setup_routes {
                1
            } else {
                0
            };
            let ipv6: int = if config.enable_ipv6 {
                1
            } else {
                0
            };
            &&& args.len() >= 4 + routes + ipv6
            &&& args[0] == "--proxy"@
            &&& args[1] == "socks5://127.0.0.1:"@ + decimal(port as nat)
            &&& args[2] == "--dns"@
            &&& config.dns_strategy is Virtual ==> args[3] == "virtual"@
            &&& config.dns_strategy is OverTcp ==> args[3] == "over-tcp"@
            &&& config.dns_strategy is Direct ==> args[3] == "direct"@
            &&& config.setup_routes <==> args.len() > 4 && args[4] == "--setup"@
            &&& config.enable_ipv6 <==> args.len() > 4 + routes && args[4 + routes]
                == "--ipv6-enabled"@
            &&& args.skip(4 + routes + ipv6) == bypass_args(texts(config.bypass@))
            &&& args.len() > 4 + routes + ipv6 ==> args[4 + routes + ipv6] == "--bypass"@
        }),
{
    lemma_words_differ();
    let args = sidecar_arguments(port, config);
    let ranges = bypass_args(texts(config.bypass@));
    lemma_bypass_pairs(texts(config.bypass@));
    let options: int = (if config.setup_routes {
        1int
    } else {
        0
    }) + (if config.enable_ipv6 {
        1int
    } else {
        0
    });
    assert(args.skip(4 + options) =~= ranges);
    if ranges.len() > 0 {
        assert(args[4 + options] == ranges[0]);
    }
}

/// Ticking a switch adds its option in its place and changes nothing else.
pub proof fn law_a_switch_adds_its_option(port: u16, off: VpnConfig, on: VpnConfig)
    requires
        off.dns_strategy == on.dns_strategy,
        off.bypass@ == on.bypass@,
    ensures
        !off.enable_ipv6 && on.enable_ipv6 && off.setup_routes == on.setup_routes
            ==> sidecar_arguments(port, on) == sidecar_arguments(port, off).insert(
            if off.setup_routes {
                5
            } else {
                4
            },
            "--ipv6-enabled"@,
        ),
        !off.setup_routes && on.setup_routes && off.enable_ipv6 == on.enable_ipv6
            ==> sidecar_arguments(port, on) == sidecar_arguments(port, off).insert(4, "--setup"@),
{
    if !off.enable_ipv6 && on.enable_ipv6 && off.setup_routes == on.setup_routes {
        let at: int = if off.setup_routes {
            5
        } else {
            4
        };
        assert(sidecar_arguments(port, on) =~= sidecar_arguments(port, off).insert(
            at,
            "--ipv6-enabled"@,
        ));
    }
    if !off.setup_routes && on.setup_routes && off.enable_ipv6 == on.enable_ipv6 {
        assert(sidecar_arguments(port, on) =~= sidecar_arguments(port, off).insert(4, "--setup"@));
    }
}

/// A range more is an option and the range more, without the white space around it; one that holds
/// nothing else is left out. The ranges before it stay.
pub proof fn law_ranges_bypass_the_tunnel(bypass: Seq<Seq<char>>, range: Seq<char>)
    ensures
        bypass_args(Seq::empty()).len() == 0,
        trimmed(range).len() == 0 ==> bypass_args(bypass.push(range)) == bypass_args(bypass),
        trimmed(range).len() > 0 ==> bypass_args(bypass.push(range)) == bypass_args(bypass) + seq![
            "--bypass"@,
            trimmed(range),
        ],
{
    assert(bypass.push(range).drop_last() =~= bypass);
    assert(bypass.push(range).last() == range);
    if trimmed(range).len() > 0 {
        assert(bypass_args(bypass.push(range)) =~= bypass_args(bypass) + seq![
            "--bypass"@,
            trimmed(range),
        ]);
    }
}

/// In the log an argument stands as it is, unless it is empty or holds white space; then it stands
/// in quotation marks.
pub proof fn law_logged_arguments(args: Seq<Seq<char>>, i: int)
    requires
        0 <= i < args.len(),
    ensures
        log_arguments(args).len() == args.len(),
        args[i].len() > 0 && (forall|k: int|
            0 <= k < args[i].len() ==> !is_space(#[trigger] args[i][k])) ==> log_arguments(args)[i]
            == args[i],
        args[i].len() == 0 || (exists|k: int|
            0 <= k < args[i].len() && is_space(#[trigger] args[i][k])) ==> log_arguments(args)[i]
            == quoted(args[i]),
{
    if exists|k: int| 0 <= k < args[i].len() && is_space(#[trigger] args[i][k]) {
        assert(has_space(args[i]));
    }
}

/// The sidecar is looked for beside the application first, then in `bin` beside it, and then in
/// each directory of the search path in turn; the longer name comes before the shorter one in each
/// of them.
pub proof fn law_order_of_the_search(
    platform: Platform,
    path_dirs: nat,
    extensions: Seq<Seq<char>>,
    dir: int,
)
    requires
        path_dirs <= usize::MAX,
        0 <= dir < path_dirs,
    ensures
        ({
            let known = search_order(platform, true, path_dirs, extensions);
            let unknown = search_order(platform, false, path_dirs, extensions);
            let (longer, shorter) = if platform == Platform::Windows {
                ("tun2proxy-bin.exe"@, "tun2proxy.exe"@)
            } else {
                ("tun2proxy-bin"@, "tun2proxy"@)
            };
            &&& known.len() == 4 + 2 * path_dirs
            &&& known[0] == (PlaceDir::Application, longer)
            &&& known[1] == (PlaceDir::Application, shorter)
            &&& known[2] == (PlaceDir::Bin, longer)
            &&& known[3] == (PlaceDir::Bin, shorter)
            &&& known[4 + 2 * dir] == (PlaceDir::OnPath(dir as usize), longer)
            &&& known[4 + 2 * dir + 1] == (PlaceDir::OnPath(dir as usize), shorter)
            &&& unknown == known.skip(4)
        }),
{
    let names = names_on_path(platform, extensions);
    if platform == Platform::Windows {
        law_names_on_windows(extensions);
    } else {
        assert(names =~= seq!["tun2proxy-bin"@, "tun2proxy"@]);
    }
    lemma_places_on_path(path_dirs, names, dir);
    let rest = places_on_path(path_dirs, names);
    let known = search_order(platform, true, path_dirs, extensions);
    assert(known.skip(4) =~= rest);
    assert(search_order(platform, false, path_dirs, extensions) =~= rest);
    assert(known[4 + 2 * dir] == rest[2 * dir]);
    assert(known[4 + 2 * dir + 1] == rest[2 * dir + 1]);
}

/// The places on the search path with two names for each directory.
proof fn lemma_places_on_path(dirs: nat, names: Seq<Seq<char>>, dir: int)
    requires
        names.len() == 2,
        0 <= dir < dirs <= usize::MAX,
    ensures
        places_on_path(dirs, names).len() == 2 * dirs,
        places_on_path(dirs, names)[2 * dir] == (PlaceDir::OnPath(dir as usize), names[0]),
        places_on_path(dirs, names)[2 * dir + 1] == (PlaceDir::OnPath(dir as usize), names[1]),
    decreases dirs,
{
    let before = (dirs - 1) as nat;
    if dir < before {
        lemma_places_on_path(before, names, dir);
    } else {
        lemma_places_len(before, names);
    }
}

proof fn lemma_places_len(dirs: nat, names: Seq<Seq<char>>)
    requires
        names.len() == 2,
    ensures
        places_on_path(dirs, names).len() == 2 * dirs,
    decreases dirs,
{
    if dirs > 0 {
        lemma_places_len((dirs - 1) as nat, names);
    }
}

/// On Windows the names end in `.exe`, and as they have an extension no other one is tried.
pub proof fn law_names_on_windows(extensions: Seq<Seq<char>>)
    ensures
        names_on_path(Platform::Windows, extensions) == seq![
            "tun2proxy-bin.exe"@,
            "tun2proxy.exe"@,
        ],
        sidecar_file_names(Platform::Windows) == seq!["tun2proxy-bin.exe"@, "tun2proxy.exe"@],
{
    reveal_strlit("tun2proxy-bin.exe");
    reveal_strlit("tun2proxy.exe");
    assert("tun2proxy-bin.exe"@[13] == '.');
    assert("tun2proxy.exe"@[9] == '.');
    assert(has_extension("tun2proxy-bin.exe"@));
    assert(has_extension("tun2proxy.exe"@));
    assert(names_on_path(Platform::Windows, extensions) =~= seq![
        "tun2proxy-bin.exe"@,
        "tun2proxy.exe"@,
    ]);
}

} // verus!
