//! The lifecycle orchestrator.
//!
//! One handler per user command. Each handler validates the operator's input,
//! checks the command's preconditions against the current catalogs, and lays
//! out the exact engine invocations to issue, in order, as plain argument
//! vectors. A handler that returns an error issues no invocation at all;
//! running the returned invocations against the engine is the caller's part.

use vstd::prelude::*;
use vstd::string::{StringExecFns, StringSliceAdditionalSpecFns};
use vstd::utf8::encode_utf8;

use crate::catalog::{
    exists_container, exists_image, has_container, has_image, port_in_use, port_used, Container,
    ContainerV, Image, ImageV,
};
use crate::codec::MAX_NAME_BYTES;
use crate::names::{
    base_image_chars, container_ref_chars, encode_container_name, encode_image_name, encode_port,
    image_ref_chars, is_sentinel, publish_arg_chars, sentinel,
};

verus! {

/// Why a handler refused a command before issuing any engine invocation.
#[derive(Debug, Clone, Copy, PartialEq, Eq, Structural)]
pub enum OrchestratorError {
    /// The operator's name does not fit the codec's length bound.
    NameTooLong,
    /// The operator's name is the reserved sentinel.
    ReservedName,
    /// A container of that name is already live.
    ContainerExists,
    /// Another live container already publishes that host port.
    PortInUse,
    /// No live container of that name exists.
    NoSuchContainer,
    /// No image of that name exists in the catalog.
    NoSuchImage,
    /// The image's name is still live as a container.
    ImageInUse,
}

/// The two classes a refusal falls in: invalid operator input, or a
/// precondition on current engine state that does not hold.
#[derive(Debug, Clone, Copy, PartialEq, Eq, Structural)]
pub enum ErrorKind {
    Validation,
    Precondition,
}

/// The class of a refusal.
pub open spec fn kind_of(e: OrchestratorError) -> ErrorKind {
    match e {
        OrchestratorError::NameTooLong => ErrorKind::Validation,
        OrchestratorError::ReservedName => ErrorKind::Validation,
        _ => ErrorKind::Precondition,
    }
}

impl OrchestratorError {
    /// The class of this refusal.
    pub fn kind(&self) -> (k: ErrorKind)
        ensures
            k == kind_of(*self),
    {
        match *self {
            OrchestratorError::NameTooLong => ErrorKind::Validation,
            OrchestratorError::ReservedName => ErrorKind::Validation,
            _ => ErrorKind::Precondition,
        }
    }
}

/// One user command, as the command line hands it over.
pub enum Command {
    /// Print the base-image recipe and its build invocation; mutates nothing.
    Build,
    /// Show the catalogs; mutates nothing.
    List,
    /// Start a container from the base image.
    New { name: String, port: u16 },
    /// Start a container from a cataloged image (the one of the same name if
    /// none is given; the sentinel names the base image).
    Run { name: String, port: u16, image: Option<String> },
    /// Commit the container to an image of the same name, then stop it.
    Stop { name: String, save: bool },
    /// Stop a container immediately, skipping any commit.
    Kill { name: String },
    /// Commit the container to an image of the same name without stopping it.
    Save { name: String },
    /// Delete an image.
    Remove { name: String },
}

/// A name's bytes fit the codec's length bound.
pub open spec fn name_fits(name: Seq<char>) -> bool {
    encode_utf8(name).len() <= MAX_NAME_BYTES
}

/// The argument vector that starts a detached container for `name`,
/// publishing the host port on loopback, from the given image reference.
pub open spec fn run_args(name: Seq<char>, port: u16, image: Seq<char>) -> Seq<Seq<char>> {
    seq![
        "container"@,
        "run"@,
        "--rm"@,
        "--detach"@,
        "--pull"@,
        "never"@,
        "--publish"@,
        publish_arg_chars(port),
        "--name"@,
        container_ref_chars(name),
        image,
    ]
}

/// The argument vector that commits the container for `name` to the image of
/// the same name, pausing it meanwhile.
pub open spec fn commit_args(name: Seq<char>) -> Seq<Seq<char>> {
    seq!["container"@, "commit"@, "--pause"@, container_ref_chars(name), image_ref_chars(name)]
}

/// The argument vector that stops the container for `name` with a grace
/// period of two seconds; the engine reclaims the container on stop.
pub open spec fn stop_args(name: Seq<char>) -> Seq<Seq<char>> {
    seq!["container"@, "stop"@, "--time"@, "2"@, container_ref_chars(name)]
}

/// The argument vector that stops the container for `name` at once.
pub open spec fn kill_args(name: Seq<char>) -> Seq<Seq<char>> {
    seq!["container"@, "kill"@, container_ref_chars(name)]
}

/// The argument vector that deletes the image for `name`.
pub open spec fn remove_args(name: Seq<char>) -> Seq<Seq<char>> {
    seq!["image"@, "rm"@, image_ref_chars(name)]
}

/// Builds the run invocation for a validated name, port and image reference.
fn run_invocation(name: &str, port: u16, image: String) -> (r: Vec<String>)
    requires
        name.spec_bytes().len() <= MAX_NAME_BYTES,
    ensures
        r.deep_view() == run_args(name@, port, image@),
{
    let mut v: Vec<String> = Vec::new();
    v.push(String::from_str("container"));
    v.push(String::from_str("run"));
    v.push(String::from_str("--rm"));
    v.push(String::from_str("--detach"));
    v.push(String::from_str("--pull"));
    v.push(String::from_str("never"));
    v.push(String::from_str("--publish"));
    v.push(encode_port(port));
    v.push(String::from_str("--name"));
    v.push(encode_container_name(name));
    v.push(image);
    proof {
        assert(v.deep_view() =~= run_args(name@, port, image@));
    }
    v
}

/// Builds the commit invocation for a validated name.
fn commit_invocation(name: &str) -> (r: Vec<String>)
    requires
        name.spec_bytes().len() <= MAX_NAME_BYTES,
    ensures
        r.deep_view() == commit_args(name@),
{
    let mut v: Vec<String> = Vec::new();
    v.push(String::from_str("container"));
    v.push(String::from_str("commit"));
    v.push(String::from_str("--pause"));
    v.push(encode_container_name(name));
    v.push(encode_image_name(name));
    proof {
        assert(v.deep_view() =~= commit_args(name@));
    }
    v
}

/// Builds the graceful stop invocation for a validated name.
fn stop_invocation(name: &str) -> (r: Vec<String>)
    requires
        name.spec_bytes().len() <= MAX_NAME_BYTES,
    ensures
        r.deep_view() == stop_args(name@),
{
    let mut v: Vec<String> = Vec::new();
    v.push(String::from_str("container"));
    v.push(String::from_str("stop"));
    v.push(String::from_str("--time"));
    v.push(String::from_str("2"));
    v.push(encode_container_name(name));
    proof {
        assert(v.deep_view() =~= stop_args(name@));
    }
    v
}

/// Builds the immediate stop invocation for a validated name.
fn kill_invocation(name: &str) -> (r: Vec<String>)
    requires
        name.spec_bytes().len() <= MAX_NAME_BYTES,
    ensures
        r.deep_view() == kill_args(name@),
{
    let mut v: Vec<String> = Vec::new();
    v.push(String::from_str("container"));
    v.push(String::from_str("kill"));
    v.push(encode_container_name(name));
    proof {
        assert(v.deep_view() =~= kill_args(name@));
    }
    v
}

/// Builds the image deletion invocation for a validated name.
fn remove_invocation(name: &str) -> (r: Vec<String>)
    requires
        name.spec_bytes().len() <= MAX_NAME_BYTES,
    ensures
        r.deep_view() == remove_args(name@),
{
    let mut v: Vec<String> = Vec::new();
    v.push(String::from_str("image"));
    v.push(String::from_str("rm"));
    v.push(encode_image_name(name));
    proof {
        assert(v.deep_view() =~= remove_args(name@));
    }
    v
}

/// When `New` goes ahead: a valid, unreserved name that is not live, and a
/// free port.
pub open spec fn new_ok(name: Seq<char>, port: u16, cs: Seq<ContainerV>) -> bool {
    &&& name_fits(name)
    &&& name != sentinel()
    &&& !has_container(cs, name)
    &&& !port_used(cs, port)
}

/// The first check `New` fails on, when it fails.
pub open spec fn new_err(name: Seq<char>, port: u16, cs: Seq<ContainerV>) -> OrchestratorError {
    if !name_fits(name) {
        OrchestratorError::NameTooLong
    } else if name == sentinel() {
        OrchestratorError::ReservedName
    } else if has_container(cs, name) {
        OrchestratorError::ContainerExists
    } else {
        OrchestratorError::PortInUse
    }
}

/// Plans `New`: one run invocation from the base image, after the checks.
pub fn plan_new(name: &str, port: u16, containers: &Vec<Container>) -> (r: Result<
    Vec<Vec<String>>,
    OrchestratorError,
>)
    ensures
        r is Ok <==> new_ok(name@, port, containers.deep_view()),
        r is Err ==> r->Err_0 == new_err(name@, port, containers.deep_view()),
        r is Ok ==> r->Ok_0.deep_view() == seq![run_args(name@, port, base_image_chars())],
{
    if name.as_bytes().len() > MAX_NAME_BYTES {
        return Err(OrchestratorError::NameTooLong);
    }
    if is_sentinel(name) {
        return Err(OrchestratorError::ReservedName);
    }
    if exists_container(containers, name) {
        return Err(OrchestratorError::ContainerExists);
    }
    if port_in_use(containers, port) {
        return Err(OrchestratorError::PortInUse);
    }
    let mut plan: Vec<Vec<String>> = Vec::new();
    plan.push(run_invocation(name, port, String::from_str("localhost/drix/default:latest")));
    proof {
        assert(plan.deep_view() =~= seq![run_args(name@, port, base_image_chars())]);
    }
    Ok(plan)
}

/// The image a `Run` refers to: the named one, or the one of the container's
/// own name if none is given.
pub open spec fn run_target(name: Seq<char>, image: Option<Seq<char>>) -> Seq<char> {
    match image {
        Some(img) => img,
        None => name,
    }
}

/// The image reference a `Run` starts from: the fixed base image for the
/// sentinel, the cataloged image otherwise.
pub open spec fn run_image_ref(target: Seq<char>) -> Seq<char> {
    if target == sentinel() {
        base_image_chars()
    } else {
        image_ref_chars(target)
    }
}

/// When `Run` goes ahead: a valid, unreserved container name that is not
/// live, and a referenced image that is the base image or stands in the
/// catalog.
pub open spec fn run_ok(
    name: Seq<char>,
    image: Option<Seq<char>>,
    is: Seq<ImageV>,
    cs: Seq<ContainerV>,
) -> bool {
    let target = run_target(name, image);
    &&& name_fits(name)
    &&& name != sentinel()
    &&& (target == sentinel() || (name_fits(target) && has_image(is, target)))
    &&& !has_container(cs, name)
}

/// The first check `Run` fails on, when it fails.
pub open spec fn run_err(
    name: Seq<char>,
    image: Option<Seq<char>>,
    is: Seq<ImageV>,
    cs: Seq<ContainerV>,
) -> OrchestratorError {
    let target = run_target(name, image);
    if !name_fits(name) {
        OrchestratorError::NameTooLong
    } else if name == sentinel() {
        OrchestratorError::ReservedName
    } else if target != sentinel() && !name_fits(target) {
        OrchestratorError::NameTooLong
    } else if target != sentinel() && !has_image(is, target) {
        OrchestratorError::NoSuchImage
    } else {
        OrchestratorError::ContainerExists
    }
}

/// Plans `Run`: one run invocation from the referenced image, after the
/// checks.
pub fn plan_run(
    name: &str,
    port: u16,
    image: &Option<String>,
    images: &Vec<Image>,
    containers: &Vec<Container>,
) -> (r: Result<Vec<Vec<String>>, OrchestratorError>)
    ensures
        r is Ok <==> run_ok(name@, image.deep_view(), images.deep_view(), containers.deep_view()),
        r is Err ==> r->Err_0 == run_err(
            name@,
            image.deep_view(),
            images.deep_view(),
            containers.deep_view(),
        ),
        r is Ok ==> r->Ok_0.deep_view() == seq![
            run_args(name@, port, run_image_ref(run_target(name@, image.deep_view()))),
        ],
{
    let target: &str = match image {
        Some(img) => img.as_str(),
        None => name,
    };
    if name.as_bytes().len() > MAX_NAME_BYTES {
        return Err(OrchestratorError::NameTooLong);
    }
    if is_sentinel(name) {
        return Err(OrchestratorError::ReservedName);
    }
    let target_is_base = is_sentinel(target);
    if !target_is_base {
        if target.as_bytes().len() > MAX_NAME_BYTES {
            return Err(OrchestratorError::NameTooLong);
        }
        if !exists_image(images, target) {
            return Err(OrchestratorError::NoSuchImage);
        }
    }
    if exists_container(containers, name) {
        return Err(OrchestratorError::ContainerExists);
    }
    let image_ref = if target_is_base {
        String::from_str("localhost/drix/default:latest")
    } else {
        encode_image_name(target)
    };
    let mut plan: Vec<Vec<String>> = Vec::new();
    plan.push(run_invocation(name, port, image_ref));
    proof {
        assert(plan.deep_view() =~= seq![
            run_args(name@, port, run_image_ref(run_target(name@, image.deep_view()))),
        ]);
    }
    Ok(plan)
}

/// When a command on a live container goes ahead: a valid name that is live.
pub open spec fn container_cmd_ok(name: Seq<char>, cs: Seq<ContainerV>) -> bool {
    name_fits(name) && has_container(cs, name)
}

/// The first check a command on a live container fails on, when it fails.
pub open spec fn container_cmd_err(name: Seq<char>, cs: Seq<ContainerV>) -> OrchestratorError {
    if !name_fits(name) {
        OrchestratorError::NameTooLong
    } else {
        OrchestratorError::NoSuchContainer
    }
}

/// Plans `Stop`: with `save`, the commit invocation strictly before the stop
/// invocation; without, the stop invocation alone.
pub fn plan_stop(name: &str, save: bool, containers: &Vec<Container>) -> (r: Result<
    Vec<Vec<String>>,
    OrchestratorError,
>)
    ensures
        r is Ok <==> container_cmd_ok(name@, containers.deep_view()),
        r is Err ==> r->Err_0 == container_cmd_err(name@, containers.deep_view()),
        r is Ok && save ==> r->Ok_0.deep_view() == seq![commit_args(name@), stop_args(name@)],
        r is Ok && !save ==> r->Ok_0.deep_view() == seq![stop_args(name@)],
{
    if name.as_bytes().len() > MAX_NAME_BYTES {
        return Err(OrchestratorError::NameTooLong);
    }
    if !exists_container(containers, name) {
        return Err(OrchestratorError::NoSuchContainer);
    }
    let mut plan: Vec<Vec<String>> = Vec::new();
    if save {
        plan.push(commit_invocation(name));
    }
    plan.push(stop_invocation(name));
    proof {
        if save {
            assert(plan.deep_view() =~= seq![commit_args(name@), stop_args(name@)]);
        } else {
            assert(plan.deep_view() =~= seq![stop_args(name@)]);
        }
    }
    Ok(plan)
}

/// Plans `Kill`: the immediate stop invocation alone, never a commit.
pub fn plan_kill(name: &str, containers: &Vec<Container>) -> (r: Result<
    Vec<Vec<String>>,
    OrchestratorError,
>)
    ensures
        r is Ok <==> container_cmd_ok(name@, containers.deep_view()),
        r is Err ==> r->Err_0 == container_cmd_err(name@, containers.deep_view()),
        r is Ok ==> r->Ok_0.deep_view() == seq![kill_args(name@)],
{
    if name.as_bytes().len() > MAX_NAME_BYTES {
        return Err(OrchestratorError::NameTooLong);
    }
    if !exists_container(containers, name) {
        return Err(OrchestratorError::NoSuchContainer);
    }
    let mut plan: Vec<Vec<String>> = Vec::new();
    plan.push(kill_invocation(name));
    proof {
        assert(plan.deep_view() =~= seq![kill_args(name@)]);
    }
    Ok(plan)
}

/// Plans `Save`: the commit invocation alone; the container keeps running.
pub fn plan_save(name: &str, containers: &Vec<Container>) -> (r: Result<
    Vec<Vec<String>>,
    OrchestratorError,
>)
    ensures
        r is Ok <==> container_cmd_ok(name@, containers.deep_view()),
        r is Err ==> r->Err_0 == container_cmd_err(name@, containers.deep_view()),
        r is Ok ==> r->Ok_0.deep_view() == seq![commit_args(name@)],
{
    if name.as_bytes().len() > MAX_NAME_BYTES {
        return Err(OrchestratorError::NameTooLong);
    }
    if !exists_container(containers, name) {
        return Err(OrchestratorError::NoSuchContainer);
    }
    let mut plan: Vec<Vec<String>> = Vec::new();
    plan.push(commit_invocation(name));
    proof {
        assert(plan.deep_view() =~= seq![commit_args(name@)]);
    }
    Ok(plan)
}

/// When `Remove` goes ahead: a valid name whose image stands in the catalog
/// and is not simultaneously live as a container.
pub open spec fn remove_ok(name: Seq<char>, is: Seq<ImageV>, cs: Seq<ContainerV>) -> bool {
    &&& name_fits(name)
    &&& has_image(is, name)
    &&& !has_container(cs, name)
}

/// The first check `Remove` fails on, when it fails.
pub open spec fn remove_err(name: Seq<char>, is: Seq<ImageV>, cs: Seq<ContainerV>) -> OrchestratorError {
    if !name_fits(name) {
        OrchestratorError::NameTooLong
    } else if !has_image(is, name) {
        OrchestratorError::NoSuchImage
    } else {
        OrchestratorError::ImageInUse
    }
}

/// Plans `Remove`: one image deletion invocation, after the checks.
pub fn plan_remove(name: &str, images: &Vec<Image>, containers: &Vec<Container>) -> (r: Result<
    Vec<Vec<String>>,
    OrchestratorError,
>)
    ensures
        r is Ok <==> remove_ok(name@, images.deep_view(), containers.deep_view()),
        r is Err ==> r->Err_0 == remove_err(name@, images.deep_view(), containers.deep_view()),
        r is Ok ==> r->Ok_0.deep_view() == seq![remove_args(name@)],
{
    if name.as_bytes().len() > MAX_NAME_BYTES {
        return Err(OrchestratorError::NameTooLong);
    }
    if !exists_image(images, name) {
        return Err(OrchestratorError::NoSuchImage);
    }
    if exists_container(containers, name) {
        return Err(OrchestratorError::ImageInUse);
    }
    let mut plan: Vec<Vec<String>> = Vec::new();
    plan.push(remove_invocation(name));
    proof {
        assert(plan.deep_view() =~= seq![remove_args(name@)]);
    }
    Ok(plan)
}

/// Plans any command against the current catalogs: the commands that mutate
/// nothing get an empty plan, each other command the plan of its handler.
pub fn plan(cmd: &Command, images: &Vec<Image>, containers: &Vec<Container>) -> (r: Result<
    Vec<Vec<String>>,
    OrchestratorError,
>)
    ensures
        ({
            let is = images.deep_view();
            let cs = containers.deep_view();
            match *cmd {
                Command::Build => r is Ok && r->Ok_0.deep_view() == Seq::<Seq<Seq<char>>>::empty(),
                Command::List => r is Ok && r->Ok_0.deep_view() == Seq::<Seq<Seq<char>>>::empty(),
                Command::New { ref name, port } => {
                    &&& r is Ok <==> new_ok(name@, port, cs)
                    &&& r is Err ==> r->Err_0 == new_err(name@, port, cs)
                    &&& r is Ok ==> r->Ok_0.deep_view() == seq![
                        run_args(name@, port, base_image_chars()),
                    ]
                },
                Command::Run { ref name, port, ref image } => {
                    &&& r is Ok <==> run_ok(name@, image.deep_view(), is, cs)
                    &&& r is Err ==> r->Err_0 == run_err(name@, image.deep_view(), is, cs)
                    &&& r is Ok ==> r->Ok_0.deep_view() == seq![
                        run_args(name@, port, run_image_ref(run_target(name@, image.deep_view()))),
                    ]
                },
                Command::Stop { ref name, save } => {
                    &&& r is Ok <==> container_cmd_ok(name@, cs)
                    &&& r is Err ==> r->Err_0 == container_cmd_err(name@, cs)
                    &&& r is Ok && save ==> r->Ok_0.deep_view() == seq![
                        commit_args(name@),
                        stop_args(name@),
                    ]
                    &&& r is Ok && !save ==> r->Ok_0.deep_view() == seq![stop_args(name@)]
                },
                Command::Kill { ref name } => {
                    &&& r is Ok <==> container_cmd_ok(name@, cs)
                    &&& r is Err ==> r->Err_0 == container_cmd_err(name@, cs)
                    &&& r is Ok ==> r->Ok_0.deep_view() == seq![kill_args(name@)]
                },
                Command::Save { ref name } => {
                    &&& r is Ok <==> container_cmd_ok(name@, cs)
                    &&& r is Err ==> r->Err_0 == container_cmd_err(name@, cs)
                    &&& r is Ok ==> r->Ok_0.deep_view() == seq![commit_args(name@)]
                },
                Command::Remove { ref name } => {
                    &&& r is Ok <==> remove_ok(name@, is, cs)
                    &&& r is Err ==> r->Err_0 == remove_err(name@, is, cs)
                    &&& r is Ok ==> r->Ok_0.deep_view() == seq![remove_args(name@)]
                },
            }
        }),
{
    match cmd {
        Command::Build => {
            let plan: Vec<Vec<String>> = Vec::new();
            proof {
                assert(plan.deep_view() =~= Seq::<Seq<Seq<char>>>::empty());
            }
            Ok(plan)
        },
        Command::List => {
            let plan: Vec<Vec<String>> = Vec::new();
            proof {
                assert(plan.deep_view() =~= Seq::<Seq<Seq<char>>>::empty());
            }
            Ok(plan)
        },
        Command::New { name, port } => plan_new(name.as_str(), *port, containers),
        Command::Run { name, port, image } => plan_run(
            name.as_str(),
            *port,
            image,
            images,
            containers,
        ),
        Command::Stop { name, save } => plan_stop(name.as_str(), *save, containers),
        Command::Kill { name } => plan_kill(name.as_str(), containers),
        Command::Save { name } => plan_save(name.as_str(), containers),
        Command::Remove { name } => plan_remove(name.as_str(), images, containers),
    }
}

/// The base-image recipe, emitted as literal text for the operator.
pub fn dockerfile_text() -> (r: &'static str)
    ensures
        r@
            == "\nFROM docker.io/fedora\nRUN dnf -y upgrade\nRUN dnf -y install openssh-server passwd \nRUN echo '123456' | passwd --stdin root && echo 'PermitRootLogin yes' >> /etc/ssh/sshd_config && ssh-keygen -A\nCMD /usr/sbin/sshd -D\n"@,
{
    "\nFROM docker.io/fedora\nRUN dnf -y upgrade\nRUN dnf -y install openssh-server passwd \nRUN echo '123456' | passwd --stdin root && echo 'PermitRootLogin yes' >> /etc/ssh/sshd_config && ssh-keygen -A\nCMD /usr/sbin/sshd -D\n"
}

/// The build invocation for the base image, emitted as literal text for the
/// operator to run by hand.
pub fn build_command_text() -> (r: &'static str)
    ensures
        r@ == "\npodman build --tag localhost/drix/default:latest .\n"@,
{
    "\npodman build --tag localhost/drix/default:latest .\n"
}

} // verus!
