use fslinkmanager::link::{
    FileType, IoFailure, LinkAction, LinkType, PathProbe, QuickLink, QuickLinkCreationError,
};

const SOURCE: &str = "/tmp/a/file.txt";
const TARGET: &str = "/tmp/a/link.txt";

fn absent() -> PathProbe {
    PathProbe {
        source_exists: true,
        target_exists: false,
        target_is_symlink: false,
        target_is_dir: false,
        link_destination: None,
    }
}

fn plain_file() -> PathProbe {
    PathProbe { target_exists: true, ..absent() }
}

fn directory() -> PathProbe {
    PathProbe { target_exists: true, target_is_dir: true, ..absent() }
}

fn symlink_to(destination: &str, to_directory: bool) -> PathProbe {
    PathProbe {
        target_exists: true,
        target_is_symlink: true,
        target_is_dir: to_directory,
        link_destination: Some(destination.to_string()),
        ..absent()
    }
}

fn dangling_symlink(destination: &str) -> PathProbe {
    PathProbe {
        target_is_symlink: true,
        link_destination: Some(destination.to_string()),
        ..absent()
    }
}

fn without_source(probe: PathProbe) -> PathProbe {
    PathProbe { source_exists: false, ..probe }
}

fn link(exists: bool, linktype: LinkType) -> QuickLink {
    QuickLink { source: SOURCE.to_string(), target: TARGET.to_string(), exists, linktype }
}

fn failure(message: &str) -> IoFailure {
    IoFailure { message: message.to_string() }
}

#[test]
fn default_kind_is_symbolic() {
    assert_eq!(LinkType::default(), LinkType::Softlink);
}

#[test]
fn new_makes_a_fresh_symbolic_link() {
    let made = QuickLink::new(SOURCE, TARGET, LinkType::Softlink, &absent());
    assert_eq!(made, Ok(link(false, LinkType::Softlink)));
}

#[test]
fn new_makes_a_fresh_hard_link() {
    let made = QuickLink::new(SOURCE, TARGET, LinkType::Hardlink, &absent());
    assert_eq!(made, Ok(link(false, LinkType::Hardlink)));
}

#[test]
fn new_refuses_a_missing_source() {
    for linktype in [LinkType::Softlink, LinkType::Hardlink] {
        for target in [absent(), plain_file(), directory(), symlink_to(SOURCE, false)] {
            let made = QuickLink::new(SOURCE, TARGET, linktype, &without_source(target));
            assert_eq!(made, Err(QuickLinkCreationError::SourceDoesNotExist(SOURCE.to_string())));
        }
    }
}

#[test]
fn new_adopts_a_symbolic_link_to_the_source() {
    let made =
        QuickLink::new(SOURCE, TARGET, LinkType::Softlink, &symlink_to(SOURCE, false));
    assert_eq!(made, Ok(link(true, LinkType::Softlink)));
}

#[test]
fn new_adopts_a_symbolic_link_to_a_source_directory() {
    let made =
        QuickLink::new(SOURCE, TARGET, LinkType::Softlink, &symlink_to(SOURCE, true));
    assert_eq!(made, Ok(link(true, LinkType::Softlink)));
}

#[test]
fn new_refuses_a_symbolic_link_to_another_place() {
    let made = QuickLink::new(
        SOURCE,
        TARGET,
        LinkType::Softlink,
        &symlink_to("/tmp/a/other.txt", false),
    );
    assert_eq!(
        made,
        Err(QuickLinkCreationError::TargetLinkHasDifferentSource(
            SOURCE.to_string(),
            TARGET.to_string(),
            "/tmp/a/other.txt".to_string()
        ))
    );
}

#[test]
fn new_refuses_a_target_that_is_a_plain_file() {
    let made = QuickLink::new(SOURCE, TARGET, LinkType::Softlink, &plain_file());
    assert_eq!(
        made,
        Err(QuickLinkCreationError::TargetExists(SOURCE.to_string(), TARGET.to_string()))
    );
}

#[test]
fn new_refuses_a_symbolic_link_at_a_directory() {
    let made =
        QuickLink::new(SOURCE, TARGET, LinkType::Softlink, &directory());
    assert_eq!(
        made,
        Err(QuickLinkCreationError::TargetExists(SOURCE.to_string(), TARGET.to_string()))
    );
}

#[test]
fn new_refuses_a_hard_link_at_any_present_target() {
    for target in [plain_file(), symlink_to(SOURCE, false), symlink_to("/elsewhere", false)] {
        let made = QuickLink::new(SOURCE, TARGET, LinkType::Hardlink, &target);
        assert_eq!(
            made,
            Err(QuickLinkCreationError::TargetExists(SOURCE.to_string(), TARGET.to_string()))
        );
    }
}

#[test]
fn new_refuses_a_hard_link_at_a_directory() {
    for target in [directory(), symlink_to(SOURCE, true), symlink_to("/elsewhere", true)] {
        let made = QuickLink::new(SOURCE, TARGET, LinkType::Hardlink, &target);
        assert_eq!(
            made,
            Err(QuickLinkCreationError::UnavailableLinkType(
                SOURCE.to_string(),
                LinkType::Hardlink,
                FileType::Directory
            ))
        );
    }
}

#[test]
fn new_refuses_a_hard_link_at_a_directory_whatever_else_was_seen() {
    let odd = PathProbe { target_is_dir: true, ..absent() };
    let made = QuickLink::new(SOURCE, TARGET, LinkType::Hardlink, &odd);
    assert_eq!(
        made,
        Err(QuickLinkCreationError::UnavailableLinkType(
            SOURCE.to_string(),
            LinkType::Hardlink,
            FileType::Directory
        ))
    );
}

#[test]
fn new_takes_a_link_that_leads_nowhere_for_an_absent_target() {
    for linktype in [LinkType::Softlink, LinkType::Hardlink] {
        let made = QuickLink::new(SOURCE, TARGET, linktype, &dangling_symlink("/gone"));
        assert_eq!(made, Ok(link(false, linktype)));
    }
}

#[test]
fn new_does_not_adopt_a_link_that_could_not_be_read() {
    let unread = PathProbe { link_destination: None, ..symlink_to(SOURCE, false) };
    let made = QuickLink::new(SOURCE, TARGET, LinkType::Softlink, &unread);
    assert_eq!(
        made,
        Err(QuickLinkCreationError::TargetExists(SOURCE.to_string(), TARGET.to_string()))
    );
}

#[test]
fn new_autolink_asks_for_the_creating_operation() {
    let made =
        QuickLink::new_autolink(SOURCE, TARGET, LinkType::Softlink, &absent());
    assert_eq!(made, Ok((link(false, LinkType::Softlink), Some(LinkAction::Symlink))));
    let made =
        QuickLink::new_autolink(SOURCE, TARGET, LinkType::Hardlink, &absent());
    assert_eq!(made, Ok((link(false, LinkType::Hardlink), Some(LinkAction::HardLink))));
}

#[test]
fn new_autolink_asks_for_nothing_when_it_adopts() {
    let made = QuickLink::new_autolink(
        SOURCE,
        TARGET,
        LinkType::Softlink,
        &symlink_to(SOURCE, false),
    );
    assert_eq!(made, Ok((link(true, LinkType::Softlink), None)));
}

#[test]
fn new_autolink_refuses_what_new_refuses() {
    let made =
        QuickLink::new_autolink(SOURCE, TARGET, LinkType::Softlink, &plain_file());
    assert_eq!(
        made,
        Err(QuickLinkCreationError::TargetExists(SOURCE.to_string(), TARGET.to_string()))
    );
    let made =
        QuickLink::new_autolink(SOURCE, TARGET, LinkType::Hardlink, &without_source(absent()));
    assert_eq!(made, Err(QuickLinkCreationError::SourceDoesNotExist(SOURCE.to_string())));
}

#[test]
fn new_autolink_ends_present_or_in_error() {
    let (mut made, action) =
        QuickLink::new_autolink(SOURCE, TARGET, LinkType::Softlink, &absent())
            .unwrap();
    assert_eq!(action, Some(made.link_action()));
    assert_eq!(made.link(Ok(())), Ok(()));
    assert!(made.exists);

    let (mut made, _) =
        QuickLink::new_autolink(SOURCE, TARGET, LinkType::Softlink, &absent())
            .unwrap();
    let error: Result<(), QuickLinkCreationError> =
        made.link(Err(failure("denied"))).map_err(QuickLinkCreationError::from);
    assert_eq!(error, Err(QuickLinkCreationError::LinkIOError(failure("denied"))));
}

#[test]
fn link_action_follows_the_kind() {
    assert_eq!(link(false, LinkType::Softlink).link_action(), LinkAction::Symlink);
    assert_eq!(link(false, LinkType::Hardlink).link_action(), LinkAction::HardLink);
}

#[test]
fn toggle_action_follows_the_state() {
    assert_eq!(link(true, LinkType::Softlink).toggle_action(), LinkAction::Remove);
    assert_eq!(link(true, LinkType::Hardlink).toggle_action(), LinkAction::Remove);
    assert_eq!(link(false, LinkType::Softlink).toggle_action(), LinkAction::Symlink);
    assert_eq!(link(false, LinkType::Hardlink).toggle_action(), LinkAction::HardLink);
}

#[test]
fn link_makes_present_on_success() {
    let mut it = link(false, LinkType::Softlink);
    assert_eq!(it.link(Ok(())), Ok(()));
    assert_eq!(it, link(true, LinkType::Softlink));
}

#[test]
fn link_changes_nothing_on_failure() {
    let mut it = link(false, LinkType::Hardlink);
    assert_eq!(it.link(Err(failure("File exists (os error 17)"))), Err(failure("File exists (os error 17)")));
    assert_eq!(it, link(false, LinkType::Hardlink));
}

#[test]
fn unlink_makes_absent_on_success() {
    let mut it = link(true, LinkType::Softlink);
    assert_eq!(it.unlink(Ok(())), Ok(()));
    assert_eq!(it, link(false, LinkType::Softlink));
}

#[test]
fn unlink_changes_nothing_on_failure() {
    let mut it = link(true, LinkType::Softlink);
    assert_eq!(it.unlink(Err(failure("gone"))), Err(failure("gone")));
    assert_eq!(it, link(true, LinkType::Softlink));
}

#[test]
fn toggle_flips_on_success() {
    let mut it = link(true, LinkType::Softlink);
    assert_eq!(it.toggle_link(Ok(())), Ok(()));
    assert!(!it.exists);
    let mut it = link(false, LinkType::Hardlink);
    assert_eq!(it.toggle_link(Ok(())), Ok(()));
    assert!(it.exists);
}

#[test]
fn toggle_does_not_flip_on_failure() {
    let mut it = link(true, LinkType::Softlink);
    assert_eq!(it.toggle_link(Err(failure("denied"))), Err(failure("denied")));
    assert_eq!(it, link(true, LinkType::Softlink));
    let mut it = link(false, LinkType::Softlink);
    assert_eq!(it.toggle_link(Err(failure("denied"))), Err(failure("denied")));
    assert_eq!(it, link(false, LinkType::Softlink));
}

#[test]
fn toggle_twice_gives_the_link_back() {
    for exists in [true, false] {
        for linktype in [LinkType::Softlink, LinkType::Hardlink] {
            let mut it = link(exists, linktype);
            let first = it.toggle_action();
            assert_eq!(it.toggle_link(Ok(())), Ok(()));
            let second = it.toggle_action();
            assert_eq!(it.toggle_link(Ok(())), Ok(()));
            assert_eq!(it, link(exists, linktype));
            assert_ne!(first, second);
            assert!(first == LinkAction::Remove || second == LinkAction::Remove);
        }
    }
}

#[test]
fn clone_is_equal() {
    let it = link(true, LinkType::Hardlink);
    assert_eq!(it.clone(), it);
}

#[test]
fn text_of_kinds() {
    assert_eq!(LinkType::Softlink.to_text(), "Softlink");
    assert_eq!(LinkType::Hardlink.to_text(), "Hardlink");
    assert_eq!(FileType::File.to_text(), "File");
    assert_eq!(FileType::Directory.to_text(), "Directory");
}

#[test]
fn text_of_a_link() {
    assert_eq!(
        link(true, LinkType::Softlink).to_text(),
        "/tmp/a/file.txt -> /tmp/a/link.txt , e: true, t: Softlink"
    );
    assert_eq!(
        link(false, LinkType::Hardlink).to_text(),
        "/tmp/a/file.txt -> /tmp/a/link.txt , e: false, t: Hardlink"
    );
}

#[test]
fn text_of_errors() {
    assert_eq!(
        QuickLinkCreationError::SourceDoesNotExist("/s".to_string()).to_text(),
        "Link for /s cannot be created - source does not exist"
    );
    assert_eq!(
        QuickLinkCreationError::TargetExists("/s".to_string(), "/t".to_string()).to_text(),
        "Link for /s cannot be created - target (/t) exists"
    );
    assert_eq!(
        QuickLinkCreationError::TargetLinkHasDifferentSource(
            "/s".to_string(),
            "/t".to_string(),
            "/o".to_string()
        )
        .to_text(),
        "Link for /s cannot be created - target (/t) is already a link from /o"
    );
    assert_eq!(
        QuickLinkCreationError::UnavailableLinkType(
            "/s".to_string(),
            LinkType::Hardlink,
            FileType::Directory
        )
        .to_text(),
        "Link for /s cannot be created - link type Hardlink is incompatible with source type: Directory"
    );
    assert_eq!(
        QuickLinkCreationError::LinkIOError(failure("denied")).to_text(),
        "Encountered an io error while linking: denied"
    );
}

#[test]
fn io_failure_becomes_a_creation_error() {
    assert_eq!(
        QuickLinkCreationError::from(failure("denied")),
        QuickLinkCreationError::LinkIOError(failure("denied"))
    );
}
