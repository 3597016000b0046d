use mazegame::draw::{sprite_index, SetSpriteData, SetSprites, SheetHandle, SpriteRender, SpriteStore};
use mazegame::maze::{Field, FieldStore};

fn world() -> SetSpriteData {
    SetSpriteData { fields: FieldStore::new(), sprites: SpriteStore::new() }
}

fn sprite(sheet: SheetHandle, n: usize) -> Option<SpriteRender> {
    Some(SpriteRender { sprite_sheet: sheet, sprite_number: n })
}

#[test]
fn sprite_table_is_fixed() {
    assert_eq!(sprite_index(Field::Path), 0);
    assert_eq!(sprite_index(Field::Wall), 1);
}

#[test]
fn path_and_wall_get_their_sprites() {
    let sheet = SheetHandle { id: 42 };
    let mut data = world();
    let mut sys = SetSprites.build(&data, sheet);
    data.fields.set(1, Field::Path);
    data.fields.set(2, Field::Wall);
    sys.run(&mut data);
    assert_eq!(data.sprites.get(1), sprite(sheet, 0));
    assert_eq!(data.sprites.get(2), sprite(sheet, 1));
    assert_eq!(data.sprites.get(3), None);
}

#[test]
fn removed_cell_loses_its_sprite() {
    let sheet = SheetHandle { id: 1 };
    let mut data = world();
    let mut sys = SetSprites.build(&data, sheet);
    data.fields.set(3, Field::Wall);
    sys.run(&mut data);
    assert_eq!(data.sprites.get(3), sprite(sheet, 1));
    data.fields.delete(3);
    sys.run(&mut data);
    assert_eq!(data.sprites.get(3), None);
}

#[test]
fn modified_cell_gets_new_sprite() {
    let sheet = SheetHandle { id: 5 };
    let mut data = world();
    let mut sys = SetSprites.build(&data, sheet);
    data.fields.set(4, Field::Path);
    sys.run(&mut data);
    data.fields.set(4, Field::Wall);
    sys.run(&mut data);
    assert_eq!(data.sprites.get(4), sprite(sheet, 1));
}

#[test]
fn delete_then_reinsert_in_one_tick_keeps_sprite() {
    let sheet = SheetHandle { id: 9 };
    let mut data = world();
    let mut sys = SetSprites.build(&data, sheet);
    data.fields.set(6, Field::Wall);
    sys.run(&mut data);
    data.fields.delete(6);
    data.fields.set(6, Field::Path);
    sys.run(&mut data);
    assert_eq!(data.sprites.get(6), sprite(sheet, 0));
}

#[test]
fn insert_then_delete_in_one_tick_leaves_no_sprite() {
    let sheet = SheetHandle { id: 9 };
    let mut data = world();
    let mut sys = SetSprites.build(&data, sheet);
    data.fields.set(8, Field::Path);
    data.fields.delete(8);
    sys.run(&mut data);
    assert_eq!(data.sprites.get(8), None);
}

#[test]
fn pass_without_changes_keeps_sprites() {
    let sheet = SheetHandle { id: 2 };
    let mut data = world();
    let mut sys = SetSprites.build(&data, sheet);
    data.fields.set(1, Field::Wall);
    sys.run(&mut data);
    sys.run(&mut data);
    assert_eq!(data.sprites.get(1), sprite(sheet, 1));
    assert_eq!(sys.field_reader.pos, 1);
}

#[test]
fn pass_reads_only_entries_after_build() {
    let sheet = SheetHandle { id: 3 };
    let mut data = world();
    data.fields.set(1, Field::Path);
    let mut sys = SetSprites.build(&data, sheet);
    data.fields.set(2, Field::Wall);
    sys.run(&mut data);
    assert_eq!(data.sprites.get(1), None);
    assert_eq!(data.sprites.get(2), sprite(sheet, 1));
}

#[test]
fn many_mutations_then_one_pass_converge() {
    let sheet = SheetHandle { id: 11 };
    let mut data = world();
    let mut sys = SetSprites.build(&data, sheet);
    for id in 0..20u64 {
        data.fields.set(id, if id % 2 == 0 { Field::Path } else { Field::Wall });
    }
    for id in 0..5u64 {
        data.fields.delete(id);
    }
    data.fields.set(3, Field::Path);
    data.fields.set(10, Field::Wall);
    sys.run(&mut data);
    for id in 0..25u64 {
        match data.fields.get(id) {
            Some(f) => assert_eq!(data.sprites.get(id), sprite(sheet, sprite_index(f))),
            None => assert_eq!(data.sprites.get(id), None),
        }
    }
}
