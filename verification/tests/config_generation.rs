use std::sync::Arc;

use conspiracy::config::as_shared_fetcher;
use conspiracy::config::shared_fetcher_from_fn;
use conspiracy::config::shared_fetcher_from_static;
use conspiracy::config::AsField;
use conspiracy::config::ConfigFetcher;
use conspiracy::config::RestartRequired;
use conspiracy::config::SharedConfigFetcher;
use conspiracy::grammar::parse_config;
use conspiracy::instance::share;
use conspiracy::instance::Compact;
use conspiracy::instance::CompactField;
use conspiracy::schema::SchemaNode;
use conspiracy::tokens::tokenize;

// What is generated for
//
//     pub struct ConfigA {
//         foo: u32,
//         bar: struct ConfigB { foo: u32, bar: pub struct ConfigC { foo: u32, bar: u32 } },
//         d: pub(crate) struct ConfigD { e: pub struct ConfigE { f: struct ConfigF { foo: String } } }
//     }
//
// written out by hand.

#[derive(Clone, PartialEq)]
pub struct ConfigA {
    foo: u32,
    bar: Arc<ConfigB>,
    d: Arc<ConfigD>,
}

#[derive(Clone, PartialEq)]
struct ConfigB {
    foo: u32,
    bar: Arc<ConfigC>,
}

#[derive(Clone, PartialEq)]
pub struct ConfigC {
    foo: u32,
    bar: u32,
}

#[derive(Clone, PartialEq)]
pub(crate) struct ConfigD {
    e: Arc<ConfigE>,
}

#[derive(Clone, PartialEq)]
pub struct ConfigE {
    f: Arc<ConfigF>,
}

#[derive(Clone, PartialEq)]
struct ConfigF {
    foo: String,
}

pub struct CompactConfigC {
    pub foo: u32,
    pub bar: u32,
}

impl CompactConfigC {
    pub fn arcify(self) -> Arc<ConfigC> {
        Arc::new(ConfigC {
            foo: self.foo,
            bar: self.bar,
        })
    }
}

impl ConfigC {
    pub fn compact(&self) -> CompactConfigC {
        CompactConfigC {
            foo: self.foo.clone(),
            bar: self.bar.clone(),
        }
    }
}

impl AsField<ConfigB> for ConfigA {
    fn share(&self) -> Arc<ConfigB> {
        self.bar.clone()
    }
}

impl AsField<ConfigC> for ConfigB {
    fn share(&self) -> Arc<ConfigC> {
        self.bar.clone()
    }
}

impl AsField<ConfigC> for ConfigA {
    fn share(&self) -> Arc<ConfigC> {
        self.bar.bar.clone()
    }
}

impl AsField<ConfigD> for ConfigA {
    fn share(&self) -> Arc<ConfigD> {
        self.d.clone()
    }
}

impl AsField<ConfigF> for ConfigA {
    fn share(&self) -> Arc<ConfigF> {
        self.d.e.f.clone()
    }
}

impl RestartRequired for ConfigA {
    fn restart_required(&self, _other: &Self) -> bool {
        false
    }
}

const WITH_ATTRIBUTES: &str = r#"
    #[serde(deny_unknown_fields)]
    pub struct WithAttributesTest {
        #[serde(default)]
        foo: u32,
        nested_no_attributes: pub struct NestedWithoutAttributes {
            #[conspiracy(restart)]
            bar: u32,
            #[conspiracy(restart)]
            nested_with_attributes:
                #[serde(rename_all = "camelCase")]
                pub struct NestedWithAttributes {
                    #[serde_as(as = "DurationMilliSeconds<u64>")]
                    pub timeout: Duration,
            },
            #[conspiracy(restart)]
            only_struct_level_restart: pub struct OnlyStructLevelRestart {
                foo: u32,
            }
        },
        #[serde_as(as = "DurationSeconds<u64>")]
        timeout: Duration,
    }
"#;

fn schema_of(text: &str) -> SchemaNode {
    let tokens = tokenize(text).expect("the declaration is a sequence of tokens");
    let node = parse_config(&tokens).expect("the declaration follows the grammar");
    assert!(node.validate().is_ok());
    node
}

fn number(value: u32) -> CompactField {
    CompactField::Leaf(value.to_le_bytes().to_vec())
}

fn duration(millis: u64) -> CompactField {
    CompactField::Leaf(millis.to_le_bytes().to_vec())
}

fn with_attributes_base() -> Compact {
    Compact {
        fields: vec![
            number(0),
            CompactField::Nested(Compact {
                fields: vec![
                    number(0),
                    CompactField::Nested(Compact {
                        fields: vec![duration(0)],
                    }),
                    CompactField::Nested(Compact {
                        fields: vec![number(0)],
                    }),
                ],
            }),
            duration(0),
        ],
    }
}

fn nested<'a>(compact: &'a mut Compact, field: usize) -> &'a mut Compact {
    match &mut compact.fields[field] {
        CompactField::Nested(inner) => inner,
        CompactField::Leaf(_) => panic!("the field holds a leaf"),
    }
}

#[test]
fn compact_attribute_passthrough() {
    let schema = schema_of(
        "pub(crate) struct Foo { e: #[derive(Default)] pub(super) struct Bar { f: #[derive(Default)] struct Cow { foo: u32, } } }",
    );
    let value = Compact {
        fields: vec![CompactField::Nested(Compact {
            fields: vec![CompactField::Nested(Compact {
                fields: vec![number(0)],
            })],
        })],
    };
    let frozen = value.arcify();
    assert!(frozen.conforms_to(&schema));
    let again = frozen.compact().arcify();
    assert!(again.same(&frozen));
}

#[test]
fn whole_struct_marked_and_changed_restart() {
    let schema = schema_of(WITH_ATTRIBUTES);
    let config = with_attributes_base().arcify();
    let mut other_config = config.compact();
    nested(nested(&mut other_config, 1), 2).fields[0] = number(50);
    let other_config = other_config.arcify();

    assert!(config.restart_required(&other_config, &schema));
}

#[test]
fn nested_config_field_changed_restart() {
    let schema = schema_of(WITH_ATTRIBUTES);
    let config = with_attributes_base().arcify();
    let mut other_config = config.compact();
    nested(&mut other_config, 1).fields[0] = number(50);
    let other_config = other_config.arcify();

    assert!(config.restart_required(&other_config, &schema));
}

#[test]
fn untagged_field_changed_no_restart() {
    let schema = schema_of(WITH_ATTRIBUTES);
    let config = with_attributes_base().arcify();
    let mut other_config = config.compact();
    other_config.fields[0] = number(50);
    other_config.fields[2] = duration(9);
    let other_config = other_config.arcify();

    assert!(!config.restart_required(&other_config, &schema));
    assert!(!config.restart_required(&config, &schema));
}

#[test]
fn restart_follows_only_tagged_fields() {
    let schema = schema_of("struct Top { foo: u32, bar: struct Inner { #[conspiracy(restart)] foo: u32 } }");
    let base = Compact {
        fields: vec![
            number(1),
            CompactField::Nested(Compact {
                fields: vec![number(1)],
            }),
        ],
    }
    .arcify();

    let mut top_changed = base.compact();
    top_changed.fields[0] = number(2);
    assert!(!base.restart_required(&top_changed.arcify(), &schema));

    let mut inner_changed = base.compact();
    nested(&mut inner_changed, 1).fields[0] = number(2);
    assert!(base.restart_required(&inner_changed.arcify(), &schema));
}

#[test]
fn manual_construction() {
    let _test = ConfigA {
        foo: 5,
        bar: Arc::new(ConfigB {
            foo: 5,
            bar: Arc::new(ConfigC { foo: 0, bar: 0 }),
        }),
        d: Arc::new(ConfigD {
            e: Arc::new(ConfigE {
                f: Arc::new(ConfigF {
                    foo: "yo".to_string(),
                }),
            }),
        }),
    };
}

fn sample_config() -> Arc<ConfigA> {
    let val = 5;

    Arc::new(ConfigA {
        foo: 1,
        bar: Arc::new(ConfigB {
            foo: val,
            bar: Arc::new(ConfigC {
                foo: 2 + 5,
                bar: if val > 0 { 2 } else { 1 },
            }),
        }),
        d: Arc::new(ConfigD {
            e: Arc::new(ConfigE {
                f: Arc::new(ConfigF {
                    foo: "yo".to_string(),
                }),
            }),
        }),
    })
}

#[test]
fn sub_config_conversion() {
    let sample = sample_config();

    convert_from_a(shared_fetcher_from_static(sample.clone()));
    uses_b(as_shared_fetcher(&shared_fetcher_from_static(sample)));
}

fn convert_from_a(a_fetcher: SharedConfigFetcher<ConfigA>) {
    uses_b(as_shared_fetcher(&a_fetcher));
    uses_c(as_shared_fetcher(&a_fetcher));
    uses_b(shared_fetcher_from_fn(move || {
        a_fetcher.latest_snapshot().share()
    }));
}

fn uses_b(b_fetcher: SharedConfigFetcher<ConfigB>) {
    assert_eq!("5", format!("{}", b_fetcher.latest_snapshot().foo));
}

fn uses_c(c_fetcher: SharedConfigFetcher<ConfigC>) {
    let mut c_compact = c_fetcher.latest_snapshot().compact();
    c_compact.foo += 1;
    let mock_config = c_compact.arcify();
    let mock_c_fetcher = shared_fetcher_from_static(mock_config);

    assert_eq!("8", format!("{}", mock_c_fetcher.latest_snapshot().foo));
}

#[test]
fn projections_of_the_written_types_share_pointers() {
    let sample = sample_config();
    let b: Arc<ConfigB> = sample.share();
    let c: Arc<ConfigC> = sample.share();
    let f: Arc<ConfigF> = sample.share();
    assert!(Arc::ptr_eq(&b, &sample.bar));
    assert!(Arc::ptr_eq(&c, &sample.bar.bar));
    assert!(Arc::ptr_eq(&f, &sample.d.e.f));
    assert_eq!(7, c.foo);
    assert_eq!("yo", f.foo);
    assert!(!sample.restart_required(&sample));
}

#[test]
fn share_returns_the_pointer_on_the_path() {
    let schema = schema_of(
        "pub struct ConfigA { foo: u32, bar: struct ConfigB { foo: u32, bar: pub struct ConfigC { foo: u32, bar: u32, } }, }",
    );
    let a = Compact {
        fields: vec![
            number(1),
            CompactField::Nested(Compact {
                fields: vec![
                    number(5),
                    CompactField::Nested(Compact {
                        fields: vec![number(7), number(2)],
                    }),
                ],
            }),
        ],
    }
    .arcify();
    assert!(a.conforms_to(&schema));

    let held_b = match &a.fields[1] {
        conspiracy::instance::SnapshotField::Nested(pointer) => pointer.clone(),
        _ => panic!("bar holds a node"),
    };
    let held_c = match &held_b.fields[1] {
        conspiracy::instance::SnapshotField::Nested(pointer) => pointer.clone(),
        _ => panic!("bar.bar holds a node"),
    };

    let b = share(&a, &schema, &vec!["bar".to_string()]).expect("bar is a node");
    let c = share(&a, &schema, &vec!["bar".to_string(), "bar".to_string()]).expect("bar.bar is a node");
    assert!(Arc::ptr_eq(&b, &held_b));
    assert!(Arc::ptr_eq(&c, &held_c));
    let whole = share(&a, &schema, &vec![]).expect("the empty path is the snapshot itself");
    assert!(Arc::ptr_eq(&whole, &a));
    assert!(share(&a, &schema, &vec!["foo".to_string()]).is_none());
    assert!(share(&a, &schema, &vec!["missing".to_string()]).is_none());
}

#[test]
fn freeze_of_compact_is_deep_equal() {
    let x = with_attributes_base().arcify();
    let y = x.compact().arcify();
    assert!(y.same(&x));
    assert!(x.same(&y));
    assert!(!Arc::ptr_eq(&x, &y));

    let mut edited = x.compact();
    nested(&mut edited, 1).fields[0] = number(3);
    let z = edited.arcify();
    assert!(!z.same(&x));
    assert!(z.compact().arcify().same(&z));
}
