use std::ops::AddAssign;

use ftzz::engine::{GeneratorStats, Params};

#[test]
fn stats_add_field_by_field() {
    let mut stats = GeneratorStats {
        files: 1,
        dirs: 2,
        bytes: 3,
    };
    stats.add_assign(GeneratorStats {
        files: 10,
        dirs: 20,
        bytes: 30,
    });
    assert_eq!(
        stats,
        GeneratorStats {
            files: 11,
            dirs: 22,
            bytes: 33
        }
    );
    assert_eq!(
        GeneratorStats::default(),
        GeneratorStats {
            files: 0,
            dirs: 0,
            bytes: 0
        }
    );
}

#[test]
fn workers_add_to_the_totals_when_they_end() {
    let params = Params::new();
    let mut first = params.clone().thread_initializer();
    let mut second = params.clone().thread_initializer();
    first.add(GeneratorStats {
        files: 5,
        dirs: 1,
        bytes: 100,
    });
    first.add(GeneratorStats {
        files: 7,
        dirs: 0,
        bytes: 50,
    });
    second.add(GeneratorStats {
        files: 1,
        dirs: 1,
        bytes: 1,
    });
    assert_eq!(
        first.pending(),
        GeneratorStats {
            files: 12,
            dirs: 1,
            bytes: 150
        }
    );
    // Nothing is in the totals before a worker ends.
    assert_eq!(params.totals(), GeneratorStats::default());
    first.flush();
    assert_eq!(
        params.totals(),
        GeneratorStats {
            files: 12,
            dirs: 1,
            bytes: 150
        }
    );
    second.flush();
    assert_eq!(
        params.totals(),
        GeneratorStats {
            files: 13,
            dirs: 2,
            bytes: 151
        }
    );
}
