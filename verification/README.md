# cosmic-greeter-daemon

The daemon that tells the COSMIC greeter which users there are and what to show
of them: names, icons, themes, backgrounds, keyboard, zoom, outputs and clock.

`src/` is the verified library. It decides who is shown (`user_filter`,
`user_list`, `user_map`), with whose permissions settings are read
(`run_as_user`), which settings and files are read and what becomes of them
(`config_load`, `wallpaper_load`, `user_data`). It does no input or output:
`request` says what to do next, `step` takes what came of it, and `finish` hands
out the result. The functions named `law_...` state what holds of every run, and
those of `load_pair` what two loads of settings have in common.

`app/` is the program around it: D-Bus, the user database, identities of the
process, and the settings of the COSMIC desktop.
