//! The settings of a run, and what is to be launched from them: the server
//! with its steps, the address it listens on, and the command line of the
//! driver.

use crate::args::texts;
use crate::registry::{StepRegistry, StepView};
use crate::runner::WorldRunner;
use crate::server::{initial, Server};
use crate::step::World;
use vstd::prelude::*;

verus! {

/// The kind of machine that the run is on, as far as the settings depend on
/// it.
#[derive(Clone, Copy, Debug, PartialEq, Eq, Structural)]
pub enum Platform {
    Unix,
    Windows,
}

/// The address that the server listens on where the settings name none:
/// port 7878, on every interface, and on Windows on the local one.
pub open spec fn default_address(platform: Platform) -> Seq<char> {
    match platform {
        Platform::Unix => "0.0.0.0:7878"@,
        Platform::Windows => "127.0.0.1:7878"@,
    }
}

/// The name of the driver's program.
pub open spec fn driver_program(platform: Platform) -> Seq<char> {
    match platform {
        Platform::Unix => "cucumber"@,
        Platform::Windows => "cucumber.bat"@,
    }
}

/// The address that the server listens on where none is set.
pub fn bind_address(platform: Platform) -> (address: &'static str)
    ensures
        address@ == default_address(platform),
{
    match platform {
        Platform::Unix => "0.0.0.0:7878",
        Platform::Windows => "127.0.0.1:7878",
    }
}

/// The name of the driver's program.
pub fn program_name(platform: Platform) -> (name: &'static str)
    ensures
        name@ == driver_program(platform),
{
    match platform {
        Platform::Unix => "cucumber",
        Platform::Windows => "cucumber.bat",
    }
}

/// A function that registers steps. The settings hold such functions and
/// apply them, in their order, to the registry of the run. A function may
/// say what it makes of a registry; of one that does not, nothing is
/// supposed.
pub trait Registrar<W> {
    /// What the function makes of a registry: whether, applied to the steps
    /// `before`, it can leave the steps `after`. Where a function does not
    /// say, it can leave any.
    open spec fn registers(&self, before: Seq<StepView<W>>, after: Seq<StepView<W>>) -> bool {
        true
    }

    fn register_steps(&self, registry: &mut StepRegistry<W>)
        ensures
            self.registers(old(registry)@, final(registry)@),
    ;
}

/// The function that registers no step.
#[derive(Clone, Copy, Debug, PartialEq, Eq, Structural)]
pub struct NoSteps;

impl<W> Registrar<W> for NoSteps {
    open spec fn registers(&self, before: Seq<StepView<W>>, after: Seq<StepView<W>>) -> bool {
        after == before
    }

    fn register_steps(&self, registry: &mut StepRegistry<W>) {
    }
}

/// Whether the first `count` of `registrars`, applied one after the other to
/// a registry without steps, can leave the steps `steps`: each is applied to
/// what the one before it left.
pub open spec fn applied<W>(
    registrars: Seq<&dyn Registrar<W>>,
    count: int,
    steps: Seq<StepView<W>>,
) -> bool
    decreases count,
{
    if count <= 0 {
        steps == Seq::<StepView<W>>::empty()
    } else {
        exists|before: Seq<StepView<W>>|
            applied(registrars, count - 1, before) && #[trigger] registrars[count - 1].registers(
                before,
                steps,
            )
    }
}

/// The command line of the driver: the program, and its arguments.
#[derive(Clone, Debug, PartialEq, Eq)]
pub struct CommandLine {
    pub program: String,
    pub args: Vec<String>,
}

/// The mathematical value of a `CommandLine`.
pub struct CommandLineView {
    pub program: Seq<char>,
    pub args: Seq<Seq<char>>,
}

impl View for CommandLine {
    type V = CommandLineView;

    open spec fn view(&self) -> CommandLineView {
        CommandLineView { program: self.program@, args: texts(self.args@) }
    }
}

/// The views of a list of string slices.
pub open spec fn slices(v: Seq<&'static str>) -> Seq<Seq<char>> {
    v.map_values(|s: &'static str| s@)
}

/// A list without its first item; the empty list stays empty.
pub open spec fn without_first(v: Seq<Seq<char>>) -> Seq<Seq<char>> {
    if v.len() == 0 {
        v
    } else {
        v.subrange(1, v.len() as int)
    }
}

/// The command line of the driver: the program of the platform; then the
/// arguments of this process but the first, which names this program; then
/// the arguments of the settings.
pub open spec fn driver_command(
    platform: Platform,
    process_args: Seq<Seq<char>>,
    args: Seq<Seq<char>>,
) -> CommandLineView {
    CommandLineView {
        program: driver_program(platform),
        args: without_first(process_args) + args,
    }
}

/// The settings of a run: the world, the address to listen on, the
/// functions that register the steps, and arguments for the driver.
#[verifier::reject_recursive_types(W)]
pub struct CucumberConfig<'a, W: World + Send + 'static> {
    world: W,
    addr: Option<&'static str>,
    registrar_fns: Vec<&'a dyn Registrar<W>>,
    args: Vec<&'static str>,
}

/// What is to be launched: the server, ready to listen, the address it is to
/// listen on, and the command line of the driver.
#[verifier::reject_recursive_types(W)]
pub struct Launch<W> {
    pub server: Server<W>,
    pub address: String,
    pub command: CommandLine,
}

/// The settings for a run on `world`: the default address, no steps, and no
/// arguments for the driver.
pub fn create_config<'a, W: World + Send + 'static>(world: W) -> (config: CucumberConfig<'a, W>)
    ensures
        config.world() == world,
        config.address_set() is None,
        config.registrars() == Seq::<&'a dyn Registrar<W>>::empty(),
        config.arguments() == Seq::<Seq<char>>::empty(),
{
    let config = CucumberConfig {
        world,
        addr: None,
        registrar_fns: Vec::new(),
        args: Vec::new(),
    };
    assert(config.arguments() =~= Seq::<Seq<char>>::empty());
    config
}

/// The command line of the driver, from the arguments of this process and
/// those of the settings.
pub fn ruby_command(platform: Platform, process_args: &Vec<String>, args: Vec<&'static str>) -> (command:
    CommandLine)
    ensures
        command@ == driver_command(platform, texts(process_args@), slices(args@)),
{
    let program = program_name(platform).to_owned();
    let ghost wanted = without_first(texts(process_args@)) + slices(args@);
    let mut all: Vec<String> = Vec::new();
    let mut i: usize = 1;
    while i < process_args.len()
        invariant
            1 <= i,
            i <= process_args.len() || process_args.len() == 0,
            all.len() == (if process_args.len() == 0 {
                0
            } else {
                i - 1
            }),
            forall|j: int| 0 <= j < all.len() ==> (#[trigger] all@[j])@ == process_args@[j + 1]@,
        decreases process_args.len() - i,
    {
        all.push(process_args[i].clone());
        i += 1;
    }
    let ghost passed = all.len();
    let mut k: usize = 0;
    while k < args.len()
        invariant
            k <= args.len(),
            passed == without_first(texts(process_args@)).len(),
            all.len() == passed + k,
            forall|j: int| 0 <= j < passed ==> (#[trigger] all@[j])@ == process_args@[j + 1]@,
            forall|j: int| passed <= j < all.len() ==> (#[trigger] all@[j])@ == args@[j - passed]@,
        decreases args.len() - k,
    {
        all.push(args[k].to_owned());
        k += 1;
    }
    assert(texts(all@) =~= wanted);
    CommandLine { program, args: all }
}

impl<'a, W: World + Send + 'static> CucumberConfig<'a, W> {
    /// The world of the run.
    pub closed spec fn world(&self) -> W {
        self.world
    }

    /// The address that was set, if one was.
    pub closed spec fn address_set(&self) -> Option<Seq<char>> {
        match self.addr {
            Some(address) => Some(address@),
            None => None,
        }
    }

    /// The functions that register the steps, in the order in which they
    /// were added.
    pub closed spec fn registrars(&self) -> Seq<&'a dyn Registrar<W>> {
        self.registrar_fns@
    }

    /// The arguments for the driver, in the order in which they were added.
    pub closed spec fn arguments(&self) -> Seq<Seq<char>> {
        slices(self.args@)
    }

    /// Sets the address to listen on, in place of the default.
    pub fn address(self, address: &'static str) -> (config: CucumberConfig<'a, W>)
        ensures
            config.address_set() == Some(address@),
            config.world() == self.world(),
            config.registrars() == self.registrars(),
            config.arguments() == self.arguments(),
    {
        let mut config = self;
        config.addr = Some(address);
        config
    }

    /// Adds functions that register steps, behind those added before.
    pub fn registrar_fns(self, registrars: &'a [&'a dyn Registrar<W>]) -> (config: CucumberConfig<
        'a,
        W,
    >)
        ensures
            config.registrars() == self.registrars() + registrars@,
            config.world() == self.world(),
            config.address_set() == self.address_set(),
            config.arguments() == self.arguments(),
    {
        let mut config = self;
        config.registrar_fns.extend_from_slice(registrars);
        config
    }

    /// Adds one function that registers steps, behind those added before.
    pub fn registrar_fn(self, registrar: &'a dyn Registrar<W>) -> (config: CucumberConfig<'a, W>)
        ensures
            config.registrars() == self.registrars().push(registrar),
            config.world() == self.world(),
            config.address_set() == self.address_set(),
            config.arguments() == self.arguments(),
    {
        let mut config = self;
        config.registrar_fns.push(registrar);
        config
    }

    /// Adds arguments for the driver, behind those added before.
    pub fn args(self, args: &'a [&'static str]) -> (config: CucumberConfig<'a, W>)
        ensures
            config.arguments() == self.arguments() + slices(args@),
            config.world() == self.world(),
            config.address_set() == self.address_set(),
            config.registrars() == self.registrars(),
    {
        let mut config = self;
        config.args.extend_from_slice(args);
        assert(config.arguments() =~= self.arguments() + slices(args@));
        config
    }

    /// Adds one argument for the driver, behind those added before.
    pub fn arg(self, arg: &'static str) -> (config: CucumberConfig<'a, W>)
        ensures
            config.arguments() == self.arguments().push(arg@),
            config.world() == self.world(),
            config.address_set() == self.address_set(),
            config.registrars() == self.registrars(),
    {
        let mut config = self;
        config.args.push(arg);
        assert(config.arguments() =~= self.arguments().push(arg@));
        config
    }

    /// Makes ready what is to be launched. The functions that register steps
    /// are applied, in their order, to a registry that starts empty; the
    /// server gets the world and that registry, and stands listening. The
    /// address is the one that was set, or the default of the platform. The
    /// command line of the driver is that of `ruby_command`.
    ///
    /// Nothing is started here: to listen, to run the driver and to wait for
    /// it are the caller's part.
    pub fn start(self, platform: Platform, process_args: &Vec<String>) -> (launch: Launch<W>)
        ensures
            launch.server.lifecycle() == initial(),
            self.registrars().len() == 0 ==> launch.server.engine().steps() == Seq::<
                StepView<W>,
            >::empty(),
            applied(
                self.registrars(),
                self.registrars().len() as int,
                launch.server.engine().steps(),
            ),
            launch.server.engine().world() == self.world(),
            launch.address@ == (match self.address_set() {
                Some(address) => address,
                None => default_address(platform),
            }),
            launch.command@ == driver_command(platform, texts(process_args@), self.arguments()),
    {
        let CucumberConfig { world, addr, registrar_fns, args } = self;
        let mut registry: StepRegistry<W> = StepRegistry::new();
        let mut i: usize = 0;
        while i < registrar_fns.len()
            invariant
                i <= registrar_fns.len(),
                registrar_fns.len() == 0 ==> registry@ == Seq::<StepView<W>>::empty(),
                applied(registrar_fns@, i as int, registry@),
            decreases registrar_fns.len() - i,
        {
            let ghost before = registry@;
            registrar_fns[i].register_steps(&mut registry);
            proof {
                let all = registrar_fns@;
                let next = i as int + 1;
                assert(applied(all, next - 1, before));
                assert(all[next - 1].registers(before, registry@));
                assert(applied(all, next, registry@));
            }
            i += 1;
        }
        let address = match addr {
            Some(address) => address.to_owned(),
            None => bind_address(platform).to_owned(),
        };
        let command = ruby_command(platform, process_args, args);
        Launch { server: Server::new(WorldRunner::with_registry(world, registry)), address, command }
    }
}

} // verus!
