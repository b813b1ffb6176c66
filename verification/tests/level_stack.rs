use lt::mpeg4::boxes::box_types::{
    BoxSpec, BoxType, ContainerType, DATA, HDLR, ILST, META, MOOV, TRKN, UDTA,
};
use lt::mpeg4::boxes::{MP4Box, BOX_HEADER_SIZE};
use lt::mpeg4::util::{LevelStack, Tabs};

// Box builders
fn new_defined_box(s: usize, id: u32) -> MP4Box<'static> {
    MP4Box {
        size: s as u32,
        buf: &[0],
        box_type: BoxType::ref_from(id),
        version_flag: None,
    }
}

fn new_simple_box(s: u32, id: u32) -> MP4Box<'static> {
    new_empty_box(s, id, ContainerType::NotContainer, false)
}

fn new_full_box(s: u32, id: u32) -> MP4Box<'static> {
    new_empty_box(s, id, ContainerType::NotContainer, true)
}

fn new_container(s: u32, id: u32) -> MP4Box<'static> {
    new_empty_box(s, id, ContainerType::Container, false)
}

fn new_empty_box(s: u32, id: u32, ct: ContainerType, fl: bool) -> MP4Box<'static> {
    MP4Box {
        size: s,
        box_type: BoxType::Unknown(BoxSpec {
            bt_id: id,
            container: ct,
            full: fl,
        }),
        buf: &[0],
        version_flag: None,
    }
}

fn header_size(id: u32) -> usize {
    BoxType::ref_from(id).header_size()
}

#[test]
fn test_level_stack_smoke() {
    let mut tests = Vec::new();
    tests.push(vec![
        new_container(100, 0x20_20_20_20),
        new_simple_box(100 - BOX_HEADER_SIZE as u32, 0x_21_21_21_21),
    ]);
    tests.push(vec![
        new_container(100, 0x20_20_20_20),
        new_full_box(100 - BOX_HEADER_SIZE as u32, 0x_21_21_21_21),
    ]);

    for t in &mut tests {
        // First Container and simple box.
        let mut l = LevelStack::new();
        println!("Empty stack: {:?}", l);

        l.add_box(t.remove(0));
        println!("After Box 1 stack: {:?}", l);
        assert_eq!(l.top().unwrap().size, 100);
        assert_eq!(l.top().unwrap().count, BOX_HEADER_SIZE);
        assert_eq!(l.len(), 1);

        l.add_box(t.remove(0));
        println!("After Box 2 stack: {:?}", l);
        assert_eq!(l.top().unwrap().size, 100);
        assert_eq!(l.top().unwrap().count, 100);

        assert_eq!(l.complete(), true);
        assert_eq!(l.len(), 1);
    }
}

#[test]
fn test_level_stack_basic_moov() {
    let mut boxes = Vec::new();

    // Push the top box, then subtract off the size of the headers for
    // containers and the size of whole box for non-containers.
    boxes.push(new_defined_box(300, MOOV));
    let mut size_accum = 300 - header_size(MOOV);

    boxes.push(new_defined_box(size_accum, UDTA));
    size_accum -= header_size(UDTA);

    boxes.push(new_defined_box(size_accum, META));
    size_accum -= header_size(META);

    boxes.push(new_defined_box(20, HDLR));
    size_accum -= 20;

    boxes.push(new_defined_box(size_accum, ILST));
    size_accum -= header_size(ILST);

    boxes.push(new_defined_box(size_accum, TRKN));
    size_accum -= header_size(TRKN);

    // This box picks up the slack of the top box: it is the entire
    // rest of that box.
    boxes.push(new_defined_box(size_accum, DATA));

    println!("Vector of boxes to push {:?}", boxes);

    // Add them all to the stack.
    let mut l = LevelStack::new();
    for b in boxes {
        l.add_box(b);
    }

    // One box counter for each container.
    assert_eq!(l.len(), 5);
    assert_eq!(l.path_string(), "/moov/udta/meta/ilst/trkn");

    // The top container is filled now, so all of the boxes come off the stack.
    l.check_and_complete();
    assert!(l.is_empty());
}

#[test]
fn level_stack_update_closes_filled_containers() {
    let mut l = LevelStack::new();
    l.update(new_container(20, 0x20_20_20_20));
    assert_eq!(l.len(), 1);
    l.update(new_simple_box(12, 0x21_21_21_21));
    assert!(l.is_empty());
    assert_eq!(l.path_string(), "/");
}

#[test]
fn level_stack_check_and_complete_with_reports_closed() {
    let mut l = LevelStack::new();
    l.add_box(new_container(30, 0x61_61_61_61));
    l.add_box(new_container(22, 0x62_62_62_62));
    l.add_box(new_simple_box(14, 0x63_63_63_63));
    let done = l.check_and_complete_with();
    assert_eq!(done.len(), 2);
    assert_eq!(done[0].box_type.value(), 0x62_62_62_62);
    assert_eq!(done[1].box_type.value(), 0x61_61_61_61);
    assert!(l.is_empty());
}

#[test]
fn level_stack_top_mut_changes_top() {
    let mut l = LevelStack::new();
    assert!(l.top_mut().is_none());
    l.add_box(new_container(30, 0x61_61_61_61));
    if let Some(c) = l.top_mut() {
        c.count = 30;
    }
    assert!(l.complete());
    assert_eq!(l.pop().unwrap().count, 30);
    assert!(l.pop().is_none());
}

#[test]
fn level_stack_path() {
    let mut l = LevelStack::new();
    l.add_box(new_defined_box(100, MOOV));
    l.add_box(new_defined_box(50, UDTA));
    assert_eq!(l.path(), vec!["moov".to_string(), "udta".to_string()]);
    assert_eq!(l.path_string(), "/moov/udta");
}

#[test]
fn tabs_indent_and_outdent() {
    let mut t = Tabs::new();
    t.indent();
    t.indent();
    assert_eq!(t.to_string(), "\t\t");
    t.outdent();
    assert_eq!(t.to_string(), "\t");
    t.outdent();
    t.outdent();
    assert_eq!(t.to_string(), "");
    let mut d = Tabs::new_with('-');
    d.indent();
    assert_eq!(d.to_string(), "-");
}
