//! Configuration defaults and the scalars planted in the store.

use snowpatch::config::{
    default_page_size, default_workers, populate_database, series_link_prefix, Config, Git,
    Patchwork,
};
use snowpatch::store::Store;

fn config() -> Config {
    Config {
        name: String::from("linuxppc-dev"),
        git: Git {
            user: String::from("git"),
            public_key: String::from("/home/me/.ssh/id_rsa.pub"),
            private_key: String::from("/home/me/.ssh/id_rsa"),
            repo: String::from("/home/me/code/linux"),
            workdir: String::from("/home/me/code/workdir"),
            workers: 2,
        },
        patchwork: Patchwork {
            url: String::from("https://patchwork.ozlabs.org"),
            token: None,
            page_size: default_page_size(),
        },
        runners: Vec::new(),
    }
}

#[test]
fn defaults() {
    assert_eq!(default_workers(), 1);
    assert_eq!(default_page_size(), 50);
}

#[test]
fn link_prefix_points_at_the_project_listing() {
    assert_eq!(
        series_link_prefix("https://patchwork.ozlabs.org", "linuxppc-dev"),
        "https://patchwork.ozlabs.org/project/linuxppc-dev/list/?series="
    );
}

#[test]
fn populate_plants_the_scalars() {
    let mut store = Store::new(sled::Config::new().temporary(true).open().unwrap());
    populate_database(&mut store, &config()).unwrap();
    assert_eq!(
        store.get_scalar(b"ssh private key path").unwrap(),
        Some(b"/home/me/.ssh/id_rsa".to_vec())
    );
    assert_eq!(
        store.get_scalar(b"ssh public key path").unwrap(),
        Some(b"/home/me/.ssh/id_rsa.pub".to_vec())
    );
    assert_eq!(
        store.get_scalar(b"patchwork series link prefix").unwrap(),
        Some(b"https://patchwork.ozlabs.org/project/linuxppc-dev/list/?series=".to_vec())
    );
}
