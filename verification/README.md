# awesome-generator

Generates the README of an awesome list of Garmin Connect IQ resources from
`awesome.toml`, compares the list with a Connect IQ app search, and prints the
source-code URLs of a search.

- `src/` is the verified library (Verus): the order of resources, the README
  tables, the lists filed by type and status, the decisions that turn GitHub
  and GitLab answers into resources and TOML fixes, the comparison report and
  the paging of a Connect IQ search. Calls into `url`, `chrono` and std's
  string functions stand behind small trusted wrappers.
- `app/` is the command line program around it: HTTP requests, Handlebars
  rendering, TOML and JSON files, and the serde copies of the library's types.
  The README template is read from `readme.md.hbs` in the working directory.
- `tests/` runs the library on concrete values.
