use icarus::imports::{import_action, ImportAction};

fn names(xs: &[&str]) -> Vec<String> {
    xs.iter().map(|x| x.to_string()).collect()
}

#[test]
fn a_module_on_the_chain_is_a_cycle() {
    let chain = names(&["/p/main.fr", "/p/a.fr"]);
    let done = names(&[]);
    let r = import_action(&chain, &done, "/p/main.fr");
    assert_eq!(
        r,
        ImportAction::Cycle("Cyclic import detected:\n/p/main.fr\n  -> /p/a.fr\n  -> /p/main.fr".to_string())
    );
}

#[test]
fn a_module_importing_itself_is_a_cycle() {
    let chain = names(&["/p/a.fr"]);
    let r = import_action(&chain, &names(&["/p/a.fr"]), "/p/a.fr");
    assert_eq!(r, ImportAction::Cycle("Cyclic import detected:\n/p/a.fr\n  -> /p/a.fr".to_string()));
}

#[test]
fn a_module_done_before_is_skipped() {
    let chain = names(&["/p/main.fr"]);
    let done = names(&["/p/b.fr", "/p/c.fr"]);
    assert_eq!(import_action(&chain, &done, "/p/c.fr"), ImportAction::Skip);
}

#[test]
fn a_new_module_is_loaded() {
    let chain = names(&["/p/main.fr"]);
    let done = names(&["/p/b.fr"]);
    assert_eq!(import_action(&chain, &done, "/p/d.fr"), ImportAction::Load);
    assert_eq!(import_action(&names(&[]), &names(&[]), "/p/d.fr"), ImportAction::Load);
}
