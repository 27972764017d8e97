use dri::catalog::{Container, Image};
use dri::orchestrator::{
    build_command_text, dockerfile_text, plan, plan_kill, plan_new, plan_remove, plan_run,
    plan_save, plan_stop, Command, ErrorKind, OrchestratorError,
};

fn image(name: &str) -> Image {
    Image {
        name: name.to_string(),
        size: 100,
    }
}

fn container(name: &str, port: u16) -> Container {
    Container {
        name: name.to_string(),
        size: 42,
        port: Some(port),
    }
}

fn args(list: &[&str]) -> Vec<String> {
    list.iter().map(|s| s.to_string()).collect()
}

#[test]
fn new_plans_one_run_invocation() {
    let p = plan_new("foo", 49222, &vec![]).unwrap();
    assert_eq!(
        p,
        vec![args(&[
            "container",
            "run",
            "--rm",
            "--detach",
            "--pull",
            "never",
            "--publish",
            "127.0.0.1:49222:22",
            "--name",
            "dri-ggpgpg",
            "localhost/drix/default:latest",
        ])]
    );
}

#[test]
fn new_rejects_reserved_name() {
    let e = plan_new("default", 49222, &vec![]).unwrap_err();
    assert_eq!(e, OrchestratorError::ReservedName);
    assert_eq!(e.kind(), ErrorKind::Validation);
}

#[test]
fn new_rejects_long_name() {
    let e = plan_new("twenty-one-characters", 49222, &vec![]).unwrap_err();
    assert_eq!(e, OrchestratorError::NameTooLong);
    assert_eq!(e.kind(), ErrorKind::Validation);
}

#[test]
fn new_rejects_live_name() {
    let cs = vec![container("foo", 8022)];
    let e = plan_new("foo", 49222, &cs).unwrap_err();
    assert_eq!(e, OrchestratorError::ContainerExists);
    assert_eq!(e.kind(), ErrorKind::Precondition);
}

#[test]
fn new_rejects_taken_port() {
    let cs = vec![container("bar", 49222)];
    let e = plan_new("foo", 49222, &cs).unwrap_err();
    assert_eq!(e, OrchestratorError::PortInUse);
}

#[test]
fn run_without_image_needs_image_of_same_name() {
    // No image named "x" in the catalog: refused before any engine call.
    let e = plan_run("x", 49222, &None, &vec![], &vec![]).unwrap_err();
    assert_eq!(e, OrchestratorError::NoSuchImage);
    assert_eq!(e.kind(), ErrorKind::Precondition);

    let e = plan_run("x", 49222, &None, &vec![image("other")], &vec![]).unwrap_err();
    assert_eq!(e, OrchestratorError::NoSuchImage);
}

#[test]
fn run_from_own_image() {
    let p = plan_run("foo", 49222, &None, &vec![image("foo")], &vec![]).unwrap();
    assert_eq!(
        p,
        vec![args(&[
            "container",
            "run",
            "--rm",
            "--detach",
            "--pull",
            "never",
            "--publish",
            "127.0.0.1:49222:22",
            "--name",
            "dri-ggpgpg",
            "localhost/dri/ggpgpg:latest",
        ])]
    );
}

#[test]
fn run_from_named_image() {
    let imgs = vec![image("base")];
    let p = plan_run("foo", 8022, &Some("base".to_string()), &imgs, &vec![]).unwrap();
    // encode("base") == "cgbgdhfg"
    assert_eq!(p[0][10], "localhost/dri/cgbgdhfg:latest");
}

#[test]
fn run_from_sentinel_image_uses_base() {
    let p = plan_run("foo", 8022, &Some("default".to_string()), &vec![], &vec![]).unwrap();
    assert_eq!(p[0][10], "localhost/drix/default:latest");
}

#[test]
fn run_rejects_live_name() {
    let imgs = vec![image("foo")];
    let cs = vec![container("foo", 8022)];
    let e = plan_run("foo", 49222, &None, &imgs, &cs).unwrap_err();
    assert_eq!(e, OrchestratorError::ContainerExists);
}

#[test]
fn stop_with_save_commits_before_stopping() {
    let cs = vec![container("x", 8022)];
    let p = plan_stop("x", true, &cs).unwrap();
    // encode("x") == "ih"
    assert_eq!(p.len(), 2);
    assert_eq!(p[0][0], "container");
    assert_eq!(p[0][1], "commit");
    assert_eq!(p[1][1], "stop");
    assert_eq!(
        p[0],
        args(&[
            "container",
            "commit",
            "--pause",
            "dri-ih",
            "localhost/dri/ih:latest",
        ])
    );
    assert_eq!(p[1], args(&["container", "stop", "--time", "2", "dri-ih"]));
}

#[test]
fn stop_without_save_only_stops() {
    let cs = vec![container("x", 8022)];
    let p = plan_stop("x", false, &cs).unwrap();
    assert_eq!(p, vec![args(&["container", "stop", "--time", "2", "dri-ih"])]);
}

#[test]
fn kill_only_stops() {
    let cs = vec![container("x", 8022)];
    let p = plan_kill("x", &cs).unwrap();
    assert_eq!(p, vec![args(&["container", "kill", "dri-ih"])]);
}

#[test]
fn stop_needs_live_container() {
    let e = plan_stop("x", true, &vec![]).unwrap_err();
    assert_eq!(e, OrchestratorError::NoSuchContainer);
    assert_eq!(e.kind(), ErrorKind::Precondition);
}

#[test]
fn save_commits_without_stopping() {
    let cs = vec![container("x", 8022)];
    let p = plan_save("x", &cs).unwrap();
    assert_eq!(
        p,
        vec![args(&[
            "container",
            "commit",
            "--pause",
            "dri-ih",
            "localhost/dri/ih:latest",
        ])]
    );
}

#[test]
fn save_needs_live_container() {
    let e = plan_save("x", &vec![]).unwrap_err();
    assert_eq!(e, OrchestratorError::NoSuchContainer);
}

#[test]
fn remove_plans_one_deletion() {
    let imgs = vec![image("foo")];
    let p = plan_remove("foo", &imgs, &vec![]).unwrap();
    assert_eq!(p, vec![args(&["image", "rm", "localhost/dri/ggpgpg:latest"])]);
}

#[test]
fn remove_needs_existing_image() {
    let e = plan_remove("x", &vec![], &vec![]).unwrap_err();
    assert_eq!(e, OrchestratorError::NoSuchImage);
}

#[test]
fn remove_refuses_live_image() {
    // "x" exists as an image and is simultaneously live: refused, no deletion.
    let imgs = vec![image("x")];
    let cs = vec![container("x", 8022)];
    let e = plan_remove("x", &imgs, &cs).unwrap_err();
    assert_eq!(e, OrchestratorError::ImageInUse);
    assert_eq!(e.kind(), ErrorKind::Precondition);
}

#[test]
fn plan_dispatches_commands() {
    assert_eq!(plan(&Command::Build, &vec![], &vec![]).unwrap().len(), 0);
    assert_eq!(plan(&Command::List, &vec![], &vec![]).unwrap().len(), 0);

    let direct = plan_new("foo", 49222, &vec![]).unwrap();
    let via = plan(
        &Command::New {
            name: "foo".to_string(),
            port: 49222,
        },
        &vec![],
        &vec![],
    )
    .unwrap();
    assert_eq!(direct, via);

    let e = plan(
        &Command::Stop {
            name: "x".to_string(),
            save: true,
        },
        &vec![],
        &vec![],
    )
    .unwrap_err();
    assert_eq!(e, OrchestratorError::NoSuchContainer);
}

#[test]
fn build_texts() {
    assert_eq!(
        dockerfile_text(),
        "\nFROM docker.io/fedora\nRUN dnf -y upgrade\nRUN dnf -y install openssh-server passwd \nRUN echo '123456' | passwd --stdin root && echo 'PermitRootLogin yes' >> /etc/ssh/sshd_config && ssh-keygen -A\nCMD /usr/sbin/sshd -D\n"
    );
    assert_eq!(
        build_command_text(),
        "\npodman build --tag localhost/drix/default:latest .\n"
    );
}
