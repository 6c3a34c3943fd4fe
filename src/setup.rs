//! The SQL statements that install the wrapper and the local metric store.
use vstd::prelude::*;

verus! {

/// The statements before the base URL in the installation script.
pub open spec fn setup_head() -> Seq<char> {
    "CREATE EXTENSION IF NOT EXISTS prometheus_fdw CASCADE;
CREATE EXTENSION IF NOT EXISTS pg_partman CASCADE;
CREATE EXTENSION IF NOT EXISTS pg_cron CASCADE;
CREATE FOREIGN DATA WRAPPER prometheus_wrapper
  HANDLER prometheus_fdw_handler
  VALIDATOR prometheus_fdw_validator;
CREATE SERVER my_prometheus_server
  FOREIGN DATA WRAPPER prometheus_wrapper
  OPTIONS (base_url '"@
}

/// The statements after the base URL in the installation script.
pub open spec fn setup_tail() -> Seq<char> {
    "');
CREATE FOREIGN TABLE metrics (
  metric_name TEXT,
  metric_labels JSONB,
  metric_time BIGINT,
  metric_value FLOAT8
)
SERVER my_prometheus_server
OPTIONS (object 'metrics', step '10m');
"@
}

/// The installation script: extensions, wrapper, a server at `base_url`
/// and a `metrics` foreign table sampled every ten minutes.
pub fn basic_setup_sql(base_url: &str) -> (r: String)
    ensures
        r@ == setup_head() + base_url@ + setup_tail(),
{
    String::from_str("CREATE EXTENSION IF NOT EXISTS prometheus_fdw CASCADE;
CREATE EXTENSION IF NOT EXISTS pg_partman CASCADE;
CREATE EXTENSION IF NOT EXISTS pg_cron CASCADE;
CREATE FOREIGN DATA WRAPPER prometheus_wrapper
  HANDLER prometheus_fdw_handler
  VALIDATOR prometheus_fdw_validator;
CREATE SERVER my_prometheus_server
  FOREIGN DATA WRAPPER prometheus_wrapper
  OPTIONS (base_url '").concat(base_url).concat("');
CREATE FOREIGN TABLE metrics (
  metric_name TEXT,
  metric_labels JSONB,
  metric_time BIGINT,
  metric_value FLOAT8
)
SERVER my_prometheus_server
OPTIONS (object 'metrics', step '10m');
")
}

/// The tables that keep metric labels and values locally.
pub fn create_tables_sql() -> (r: String)
    ensures
        r@ == "CREATE TABLE IF NOT EXISTS metric_labels (
  id SERIAL PRIMARY KEY,
  name TEXT NOT NULL,
  labels jsonb NOT NULL
);
CREATE TABLE IF NOT EXISTS metric_values (
  label_id INTEGER REFERENCES metric_labels (id),
  time TIMESTAMP NOT NULL,
  value DOUBLE PRECISION NOT NULL
) PARTITION BY RANGE (time);
"@,
{
    String::from_str("CREATE TABLE IF NOT EXISTS metric_labels (
  id SERIAL PRIMARY KEY,
  name TEXT NOT NULL,
  labels jsonb NOT NULL
);
CREATE TABLE IF NOT EXISTS metric_values (
  label_id INTEGER REFERENCES metric_labels (id),
  time TIMESTAMP NOT NULL,
  value DOUBLE PRECISION NOT NULL
) PARTITION BY RANGE (time);
")
}

/// The indexes of the local metric tables.
pub fn create_indexes_sql() -> (r: String)
    ensures
        r@ == "CREATE INDEX idx_metric_labels_name ON metric_labels (name);
CREATE INDEX idx_metric_labels_labels ON metric_labels USING GIN (labels);
CREATE INDEX idx_metric_values_time ON metric_values (time);
CREATE INDEX idx_metric_values_label_id ON metric_values (label_id);
"@,
{
    String::from_str("CREATE INDEX idx_metric_labels_name ON metric_labels (name);
CREATE INDEX idx_metric_labels_labels ON metric_labels USING GIN (labels);
CREATE INDEX idx_metric_values_time ON metric_values (time);
CREATE INDEX idx_metric_values_label_id ON metric_values (label_id);
")
}

/// Daily partitions for the metric values.
pub fn partitioning_sql() -> (r: String)
    ensures
        r@ == "SELECT create_parent('public.metric_values', 'time', 'native', '1 day');"@,
{
    String::from_str("SELECT create_parent('public.metric_values', 'time', 'native', '1 day');")
}

/// The retention policy: partitions older than `retention_period` are
/// dropped with their indexes.
pub fn retention_sql(retention_period: &str) -> (r: String)
    ensures
        r@ == "UPDATE part_config SET retention = '"@ + retention_period@
            + "', retention_keep_table = false, retention_keep_index = false, infinite_time_partitions = true WHERE parent_table = 'public.metric_values';"@,
{
    String::from_str("UPDATE part_config SET retention = '").concat(retention_period).concat(
        "', retention_keep_table = false, retention_keep_index = false, infinite_time_partitions = true WHERE parent_table = 'public.metric_values';",
    )
}

} // verus!
